//! Keeping the ids of a secondary world in step with a primary world.

use vstd::prelude::*;

verus! {

/// Whether `id` occurs in `ids`.
fn contains_id(ids: &Vec<u64>, id: u64) -> (r: bool)
    ensures
        r == ids@.contains(id),
{
    let mut i: usize = 0;
    while i < ids.len()
        invariant
            i <= ids@.len(),
            forall|j: int| 0 <= j < i ==> ids@[j] != id,
        decreases ids@.len() - i,
    {
        if ids[i] == id {
            return true;
        }
        i = i + 1;
    }
    false
}

/// The entries of `from` that do not occur in `other`, in order.
fn missing_from(from: &Vec<u64>, other: &Vec<u64>) -> (r: Vec<u64>)
    ensures
        r@ == from@.filter(|k: u64| !other@.contains(k)),
        from@.no_duplicates() ==> r@.no_duplicates(),
{
    let ghost pred = |k: u64| !other@.contains(k);
    let mut r: Vec<u64> = Vec::new();
    let mut i: usize = 0;
    while i < from.len()
        invariant
            i <= from@.len(),
            pred == (|k: u64| !other@.contains(k)),
            r@ == from@.take(i as int).filter(pred),
            forall|j: int| 0 <= j < r@.len() ==> from@.take(i as int).contains(#[trigger] r@[j]),
            from@.no_duplicates() ==> r@.no_duplicates(),
        decreases from@.len() - i,
    {
        let k = from[i];
        proof {
            assert(from@.take(i as int + 1) =~= from@.take(i as int).push(k));
            from@.take(i as int).lemma_filter_push(k, pred);
        }
        if !contains_id(other, k) {
            proof {
                if from@.no_duplicates() {
                    assert forall|j: int| 0 <= j < r@.len() implies r@[j] != k by {
                        let m = choose|m: int| 0 <= m < i && from@.take(i as int)[m] == r@[j];
                        assert(from@[m] == r@[j]);
                    }
                }
            }
            r.push(k);
            proof {
                assert forall|j: int| 0 <= j < r@.len() implies from@.take(i as int + 1).contains(
                    #[trigger] r@[j],
                ) by {
                    if j < r@.len() - 1 {
                        let m = choose|m: int| 0 <= m < i && from@.take(i as int)[m] == r@[j];
                        assert(from@.take(i as int + 1)[m] == r@[j]);
                    } else {
                        assert(from@.take(i as int + 1)[i as int] == k);
                    }
                }
            }
        } else {
            proof {
                assert forall|j: int| 0 <= j < r@.len() implies from@.take(i as int + 1).contains(
                    #[trigger] r@[j],
                ) by {
                    let m = choose|m: int| 0 <= m < i && from@.take(i as int)[m] == r@[j];
                    assert(from@.take(i as int + 1)[m] == r@[j]);
                }
            }
        }
        i = i + 1;
    }
    proof {
        assert(from@.take(from@.len() as int) =~= from@);
    }
    r
}

/// What synchronizing a secondary world with a primary one does to its ids:
/// given the ids the secondary world holds and the ids alive in the primary
/// world, the ids to add (alive but not held, in the order of `alive`) and
/// the ids to despawn (held but no longer alive, in the order of `ids`).
pub fn synchronize_plan(ids: &Vec<u64>, alive: &Vec<u64>) -> (r: (Vec<u64>, Vec<u64>))
    ensures
        r.0@ == alive@.filter(|k: u64| !ids@.contains(k)),
        r.1@ == ids@.filter(|k: u64| !alive@.contains(k)),
        ids@.no_duplicates() ==> r.1@.no_duplicates(),
        alive@.no_duplicates() ==> r.0@.no_duplicates(),
{
    let added = missing_from(alive, ids);
    let removed = missing_from(ids, alive);
    (added, removed)
}

} // verus!

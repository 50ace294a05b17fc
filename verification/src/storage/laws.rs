//! What holds of a [`Storage`] across calls.

use super::Storage;
use vstd::prelude::*;

verus! {

/// A value that was just inserted can be read back under the returned key.
pub proof fn get_after_insert<T>(s: Storage<T>, t: Storage<T>, key: (usize, usize), value: T)
    requires
        s.inserted(t, key, value),
    ensures
        t@.contains_key(key),
        t@[key] == value,
{
}

/// Removing the key that an insertion returned gives the value back and
/// leaves the same live values as before the insertion.
pub proof fn remove_undoes_insert<T>(
    s: Storage<T>,
    t: Storage<T>,
    u: Storage<T>,
    key: (usize, usize),
    value: T,
    result: Option<T>,
)
    requires
        s.wf(),
        s.inserted(t, key, value),
        t.removed(u, key, result),
    ensures
        result == Some(value),
        u@ == s@,
        u.spec_len() == s.spec_len() - 1,
{
    s.lemma_next_key_is_fresh();
    assert(u@ =~= s@);
}

/// After a successful removal the key is retired: it no longer reads a value.
pub proof fn removed_key_is_retired<T>(s: Storage<T>, t: Storage<T>, key: (usize, usize), result: Option<T>)
    requires
        s.wf(),
        s.removed(t, key, result),
        result.is_some(),
    ensures
        t.retired(key),
{
    s.lemma_live_is_issued(key);
}

/// A retired key stays retired across an insertion: a new value never takes
/// over an old key.
pub proof fn retired_survives_insert<T>(
    s: Storage<T>,
    t: Storage<T>,
    key: (usize, usize),
    value: T,
    old_key: (usize, usize),
)
    requires
        s.wf(),
        s.inserted(t, key, value),
        s.retired(old_key),
    ensures
        t.retired(old_key),
        key != old_key,
{
    s.lemma_wf_bounds();
    if s.free_order().len() > 0 {
        let i = s.free_order()[0];
        if old_key.0 == i {
            assert(old_key.1 <= s.generations()[i as int]);
            assert(key.1 == s.generations()[i as int] + 1);
        }
        assert(key != old_key);
        assert(t.generations()[old_key.0 as int] >= old_key.1);
    } else {
        assert(key.0 == s.slot_count());
        assert(t.generations()[old_key.0 as int] == s.generations()[old_key.0 as int]);
    }
}

/// A retired key stays retired across a removal.
pub proof fn retired_survives_remove<T>(
    s: Storage<T>,
    t: Storage<T>,
    key: (usize, usize),
    result: Option<T>,
    old_key: (usize, usize),
)
    requires
        s.removed(t, key, result),
        s.retired(old_key),
    ensures
        t.retired(old_key),
{
}

/// The slot freed last is the one the next insertion fills, one generation on.
pub proof fn insert_reuses_last_removed<T>(
    s: Storage<T>,
    t: Storage<T>,
    u: Storage<T>,
    key: (usize, usize),
    result: Option<T>,
    new_key: (usize, usize),
    value: T,
)
    requires
        s.wf(),
        s.removed(t, key, result),
        result.is_some(),
        t.inserted(u, new_key, value),
    ensures
        new_key == (key.0, (key.1 + 1) as usize),
{
    s.lemma_live_is_issued(key);
}

} // verus!

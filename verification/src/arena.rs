//! The generational arena of the `thunderdome` crate, seen through its
//! contents: a map from index bits (`Index::to_bits`) to the stored values.
//!
//! Everything here is trusted: the contracts restate what thunderdome's
//! source does, and are not proved.

use thunderdome::{Arena, Index};
use vstd::prelude::*;

verus! {

/// `thunderdome::Arena`, declared so that it can stand in fields and
/// signatures; Verus sees nothing inside it.
#[verifier::external_type_specification]
#[verifier::external_body]
#[verifier::reject_recursive_types(T)]
pub struct ExArena<T>(thunderdome::Arena<T>);

/// The values stored in an arena of row numbers, keyed by the bits of their
/// index (`Index::to_bits`: generation in the high half, slot in the low half).
pub uninterp spec fn arena_entries(arena: thunderdome::Arena<usize>) -> Map<u64, usize>;

/// The slot that an index's bits point to: the low 32 bits.
pub open spec fn key_slot(bits: u64) -> u64 {
    bits % 0x1_0000_0000
}

/// Whether bits decode to an index: thunderdome generations are never 0.
pub open spec fn key_is_valid(bits: u64) -> bool {
    bits / 0x1_0000_0000 != 0
}

/// `Arena::new`: an arena with no entries.
#[verifier::external_body]
pub(crate) fn arena_new() -> (r: Arena<usize>)
    ensures
        arena_entries(r).dom() == Set::<u64>::empty(),
{
    Arena::new()
}

/// `Arena::len`: the number of entries.
#[verifier::external_body]
pub(crate) fn arena_len(arena: &Arena<usize>) -> (r: usize)
    ensures
        r == arena_entries(*arena).len(),
{
    arena.len()
}

/// `Arena::insert`: stores `value` under a new index, in a slot that no
/// entry occupies, and returns the index's bits. Thunderdome panics when the
/// arena already holds `u32::MAX` entries. The slot is below `u32::MAX`: a
/// reused slot comes from the free list, which cannot point at slot
/// `u32::MAX`, and a new slot is the storage length, which equals the number
/// of entries when no slot is free.
#[verifier::external_body]
pub(crate) fn arena_insert(arena: &mut Arena<usize>, value: usize) -> (bits: u64)
    requires
        arena_entries(*old(arena)).len() < u32::MAX,
    ensures
        arena_entries(*final(arena)).dom().finite(),
        arena_entries(*final(arena)) == arena_entries(*old(arena)).insert(bits, value),
        key_is_valid(bits),
        key_slot(bits) < u32::MAX,
        forall|k: u64|
            #[trigger] arena_entries(*old(arena)).contains_key(k) ==> key_slot(k) != key_slot(bits),
{
    arena.insert(value).to_bits()
}

/// `Arena::get`: the value under the index with these bits, if present.
#[verifier::external_body]
pub(crate) fn arena_get(arena: &Arena<usize>, bits: u64) -> (r: Option<usize>)
    ensures
        r == (if arena_entries(*arena).contains_key(bits) {
            Some(arena_entries(*arena)[bits])
        } else {
            None
        }),
{
    match Index::from_bits(bits) {
        Some(index) => arena.get(index).copied(),
        None => None,
    }
}

/// `Arena::remove`: takes out the value under the index with these bits, if
/// present. Thunderdome panics when the removed entry sits in slot
/// `u32::MAX`, since its free list cannot point there.
#[verifier::external_body]
pub(crate) fn arena_remove(arena: &mut Arena<usize>, bits: u64) -> (r: Option<usize>)
    requires
        arena_entries(*old(arena)).contains_key(bits) ==> key_slot(bits) < u32::MAX,
    ensures
        arena_entries(*final(arena)).dom().finite(),
        r == (if arena_entries(*old(arena)).contains_key(bits) {
            Some(arena_entries(*old(arena))[bits])
        } else {
            None
        }),
        arena_entries(*final(arena)) == arena_entries(*old(arena)).remove(bits),
{
    match Index::from_bits(bits) {
        Some(index) => arena.remove(index),
        None => None,
    }
}

/// `IndexMut` of `Arena`: overwrites the value under a present index.
#[verifier::external_body]
pub(crate) fn arena_set(arena: &mut Arena<usize>, bits: u64, value: usize)
    requires
        arena_entries(*old(arena)).contains_key(bits),
    ensures
        arena_entries(*final(arena)).dom().finite(),
        arena_entries(*final(arena)) == arena_entries(*old(arena)).insert(bits, value),
{
    match Index::from_bits(bits) {
        Some(index) => arena[index] = value,
        None => {},
    }
}

/// `Arena::insert_at`: stores `value` in the slot of the given index with the
/// index's generation, dropping whatever that slot held, and returns the
/// dropped value. Thunderdome panics when the slot was empty and the arena
/// already holds `u32::MAX` entries. Only slots below `u32::MAX` are used
/// here, since an entry in slot `u32::MAX` could never be removed.
#[verifier::external_body]
pub(crate) fn arena_insert_at(arena: &mut Arena<usize>, bits: u64, value: usize) -> (r: Option<usize>)
    requires
        key_is_valid(bits),
        key_slot(bits) < u32::MAX,
        (forall|k: u64|
            #[trigger] arena_entries(*old(arena)).contains_key(k) ==> key_slot(k) != key_slot(bits))
            ==> arena_entries(*old(arena)).len() < u32::MAX,
    ensures
        arena_entries(*final(arena)).dom().finite(),
        forall|k: u64|
            #[trigger] arena_entries(*final(arena)).contains_key(k) <==> (k == bits || (
            arena_entries(*old(arena)).contains_key(k) && key_slot(k) != key_slot(bits))),
        arena_entries(*final(arena))[bits] == value,
        forall|k: u64|
            arena_entries(*old(arena)).contains_key(k) && key_slot(k) != key_slot(bits)
                ==> #[trigger] arena_entries(*final(arena))[k] == arena_entries(*old(arena))[k],
        r.is_some() == (exists|k: u64|
            #[trigger] arena_entries(*old(arena)).contains_key(k) && key_slot(k) == key_slot(bits)),
        r matches Some(v) ==> exists|k: u64|
            #[trigger] arena_entries(*old(arena)).contains_key(k) && key_slot(k) == key_slot(bits)
                && arena_entries(*old(arena))[k] == v,
{
    match Index::from_bits(bits) {
        Some(index) => arena.insert_at(index, value),
        None => None,
    }
}

} // verus!

//! Entity storage: a row of slots, each holding one entity or nothing.
//!
//! The index of a slot is the entity's handle. It stays put for as long as
//! the entity lives, so passes can walk the row while marking entities for
//! removal, and notifications can name an entity by its slot.

use vstd::prelude::*;

verus! {

/// How many slots of the row hold an entity.
pub open spec fn live_count<T>(slots: Seq<Option<T>>) -> nat
    decreases slots.len(),
{
    if slots.len() == 0 {
        0
    } else {
        live_count(slots.drop_last()) + if slots.last() is Some {
            1nat
        } else {
            0nat
        }
    }
}

/// A slot handed out by a pass, as a position in the row.
pub open spec fn slot_of(slot: Option<usize>) -> Option<int> {
    match slot {
        Some(s) => Some(s as int),
        None => None,
    }
}

/// The first empty slot at or after `start`; the row's length if there is
/// none.
pub open spec fn first_free_from<T>(slots: Seq<Option<T>>, start: int) -> int
    decreases slots.len() - start,
{
    if start < 0 || start >= slots.len() {
        slots.len() as int
    } else if slots[start] is None {
        start
    } else {
        first_free_from(slots, start + 1)
    }
}

/// The first empty slot of the row; its length if every slot is taken.
pub open spec fn first_free<T>(slots: Seq<Option<T>>) -> int {
    first_free_from(slots, 0)
}

/// The row after `item` has taken the first empty slot, or a new slot at the
/// end if none was empty.
pub open spec fn placed<T>(slots: Seq<Option<T>>, item: T) -> Seq<Option<T>> {
    let slot = first_free(slots);
    if slot < slots.len() {
        slots.update(slot, Some(item))
    } else {
        slots.push(Some(item))
    }
}

/// The first empty slot is empty, every slot before it is taken.
pub proof fn lemma_first_free<T>(slots: Seq<Option<T>>, start: int)
    requires
        0 <= start <= slots.len(),
    ensures
        start <= first_free_from(slots, start) <= slots.len(),
        first_free_from(slots, start) < slots.len() ==> slots[first_free_from(slots, start)]
            is None,
        forall|i: int| start <= i < first_free_from(slots, start) ==> (#[trigger] slots[i]) is Some,
    decreases slots.len() - start,
{
    if start < slots.len() && slots[start] is Some {
        lemma_first_free(slots, start + 1);
    }
}

/// A row in which every slot is taken holds as many entities as it is long.
pub proof fn lemma_live_count_full<T>(slots: Seq<Option<T>>)
    requires
        forall|i: int| 0 <= i < slots.len() ==> (#[trigger] slots[i]) is Some,
    ensures
        live_count(slots) == slots.len(),
    decreases slots.len(),
{
    if slots.len() > 0 {
        lemma_live_count_full(slots.drop_last());
    }
}

/// Counts the entities in the row.
pub fn count_live<T>(slots: &Vec<Option<T>>) -> (n: usize)
    ensures
        n == live_count(slots@),
{
    let mut n: usize = 0;
    let mut i: usize = 0;
    while i < slots.len()
        invariant
            i <= slots.len(),
            n == live_count(slots@.take(i as int)),
            n <= i,
        decreases slots.len() - i,
    {
        proof {
            assert(slots@.take(i + 1).drop_last() =~= slots@.take(i as int));
        }
        if slots[i].is_some() {
            n = n + 1;
        }
        i = i + 1;
    }
    proof {
        assert(slots@.take(i as int) =~= slots@);
    }
    n
}

/// Finds the first empty slot.
pub fn find_free<T>(slots: &Vec<Option<T>>) -> (slot: usize)
    ensures
        slot == first_free(slots@),
        slot <= slots.len(),
{
    let mut i: usize = 0;
    while i < slots.len() && slots[i].is_some()
        invariant
            i <= slots.len(),
            first_free_from(slots@, i as int) == first_free(slots@),
        decreases slots.len() - i,
    {
        i = i + 1;
    }
    i
}

/// Puts `item` into the first empty slot, or into a new one at the end, and
/// returns the slot it took.
pub fn place<T>(slots: &mut Vec<Option<T>>, item: T) -> (slot: usize)
    ensures
        final(slots)@ == placed(old(slots)@, item),
        slot == first_free(old(slots)@),
        slot < final(slots).len(),
{
    let slot: usize = find_free(slots);
    if slot < slots.len() {
        slots[slot] = Some(item);
    } else {
        slots.push(Some(item));
    }
    slot
}

} // verus!

//! Page allocator: the two-level address of a copy, derived from the global
//! copy index alone.

use vstd::prelude::*;

verus! {

/// Number of copies that one deck directory holds.
pub const DECK_SIZE: usize = 612;

/// The address of one copy: the deck directory and the position inside it.
#[derive(Clone, Copy, Debug, PartialEq, Eq, Structural)]
pub struct Slot {
    pub page: usize,
    pub slot: usize,
}

/// Page of copy `index` when every page holds `capacity` copies.
pub open spec fn page_of(index: nat, capacity: nat) -> nat {
    index / capacity
}

/// Position of copy `index` inside its page when every page holds `capacity` copies.
pub open spec fn slot_of(index: nat, capacity: nat) -> nat {
    index % capacity
}

/// Address of the copy with global index `global_index` for pages of `capacity` copies.
pub fn locate_in(global_index: usize, capacity: usize) -> (at: Slot)
    requires
        capacity >= 1,
    ensures
        at.page == page_of(global_index as nat, capacity as nat),
        at.slot == slot_of(global_index as nat, capacity as nat),
{
    Slot { page: global_index / capacity, slot: global_index % capacity }
}

/// Address of the copy with global index `global_index` for pages of `DECK_SIZE` copies.
pub fn locate(global_index: usize) -> (at: Slot)
    ensures
        at.page == page_of(global_index as nat, DECK_SIZE as nat),
        at.slot == slot_of(global_index as nat, DECK_SIZE as nat),
{
    locate_in(global_index, DECK_SIZE)
}

/// Page and slot rebuild the index, and the slot stays below the capacity.
pub proof fn lemma_locate_inverse(index: nat, capacity: nat)
    requires
        capacity >= 1,
    ensures
        slot_of(index, capacity) < capacity,
        page_of(index, capacity) * capacity + slot_of(index, capacity) == index,
{
    vstd::arithmetic::div_mod::lemma_fundamental_div_mod(index as int, capacity as int);
    vstd::arithmetic::div_mod::lemma_mod_bound(index as int, capacity as int);
    assert(page_of(index, capacity) * capacity == capacity * page_of(index, capacity))
        by (nonlinear_arith);
}

/// A run of `capacity` consecutive indices that starts at a multiple of
/// `capacity` stays on one page and visits the slots `0..capacity` once each,
/// in order: the `offset`-th index of the run of page `page` lands on slot `offset`.
pub proof fn lemma_page_run(page: nat, offset: nat, capacity: nat)
    requires
        capacity >= 1,
        offset < capacity,
    ensures
        page_of(page * capacity + offset, capacity) == page,
        slot_of(page * capacity + offset, capacity) == offset,
{
    vstd::arithmetic::div_mod::lemma_fundamental_div_mod_converse(
        (page * capacity + offset) as int,
        capacity as int,
        page as int,
        offset as int,
    );
}

/// Consecutive indices advance the slot by one, and roll over to slot 0 of
/// the next page after the last slot of a page.
pub proof fn lemma_locate_successor(index: nat, capacity: nat)
    requires
        capacity >= 1,
    ensures
        slot_of(index, capacity) + 1 < capacity ==> page_of(index + 1, capacity) == page_of(
            index,
            capacity,
        ) && slot_of(index + 1, capacity) == slot_of(index, capacity) + 1,
        slot_of(index, capacity) + 1 == capacity ==> page_of(index + 1, capacity) == page_of(
            index,
            capacity,
        ) + 1 && slot_of(index + 1, capacity) == 0,
{
    lemma_locate_inverse(index, capacity);
    let p = page_of(index, capacity);
    let s = slot_of(index, capacity);
    if s + 1 < capacity {
        lemma_page_run(p, s + 1, capacity);
    } else {
        assert((p + 1) * capacity == p * capacity + capacity) by (nonlinear_arith);
        lemma_page_run(p + 1, 0, capacity);
    }
}

} // verus!

use vstd::prelude::*;

verus! {

/// The page that entry number `counter` falls into when each page holds
/// `capacity` entries.
pub open spec fn page_index_spec(counter: int, capacity: int) -> int {
    counter / capacity
}

/// The position inside its page of entry number `counter`.
pub open spec fn page_offset_spec(counter: int, capacity: int) -> int {
    counter % capacity
}

/// The page that entry number `counter` falls into.
pub fn page_index(counter: u32, capacity: u32) -> (index: u32)
    requires
        capacity > 0,
    ensures
        index == page_index_spec(counter as int, capacity as int),
{
    counter / capacity
}

/// The position inside its page of entry number `counter`.
pub fn page_offset(counter: u32, capacity: u32) -> (offset: u32)
    requires
        capacity > 0,
    ensures
        offset == page_offset_spec(counter as int, capacity as int),
        offset < capacity,
{
    counter % capacity
}

/// Whether entry number `counter` is the first of a page, so that the page may
/// have to be created before the entry is written.
pub fn is_page_boundary(counter: u32, capacity: u32) -> (first: bool)
    requires
        capacity > 0,
    ensures
        first == (page_offset_spec(counter as int, capacity as int) == 0),
{
    counter % capacity == 0
}

/// The count that a reset to the start of the current page leaves: `count`
/// less the entries of the page that was being filled.
pub fn reset_floor(count: u32, capacity: u32) -> (floor: u32)
    requires
        capacity > 0,
    ensures
        floor == count - page_offset_spec(count as int, capacity as int),
{
    proof {
        law_page_decomposition(count as int, capacity as int);
    }
    count - count % capacity
}

/// The page of an entry never lies before the page of an earlier entry.
pub proof fn law_page_index_monotonic(a: int, b: int, capacity: int)
    requires
        0 <= a <= b,
        capacity > 0,
    ensures
        page_index_spec(a, capacity) <= page_index_spec(b, capacity),
{
    vstd::arithmetic::div_mod::lemma_div_is_ordered(a, b, capacity);
}

/// An entry's number is its page times the capacity plus its position in the
/// page, and the position is less than the capacity.
pub proof fn law_page_decomposition(counter: int, capacity: int)
    requires
        0 <= counter,
        capacity > 0,
    ensures
        counter == page_index_spec(counter, capacity) * capacity + page_offset_spec(
            counter,
            capacity,
        ),
        0 <= page_offset_spec(counter, capacity) < capacity,
        0 <= page_index_spec(counter, capacity),
{
    vstd::arithmetic::div_mod::lemma_fundamental_div_mod(counter, capacity);
    vstd::arithmetic::div_mod::lemma_mod_bound(counter, capacity);
    vstd::arithmetic::div_mod::lemma_div_pos_is_pos(counter, capacity);
    assert(capacity * (counter / capacity) == (counter / capacity) * capacity) by (nonlinear_arith);
}

/// The floor of a reset is the first entry of the page that `count` falls into:
/// it lies on a page boundary, in the same page, and not above `count`.
pub proof fn law_reset_floor(count: int, capacity: int)
    requires
        0 <= count,
        capacity > 0,
    ensures
        count - page_offset_spec(count, capacity) == page_index_spec(count, capacity) * capacity,
        0 <= count - page_offset_spec(count, capacity) <= count,
        page_offset_spec(count - page_offset_spec(count, capacity), capacity) == 0,
        page_index_spec(count - page_offset_spec(count, capacity), capacity) == page_index_spec(
            count,
            capacity,
        ),
{
    law_page_decomposition(count, capacity);
    let q = page_index_spec(count, capacity);
    vstd::arithmetic::div_mod::lemma_fundamental_div_mod_converse(q * capacity, capacity, q, 0);
}

} // verus!

use crate::codec::{count_of, header_bytes, header_spec, read_header, tag_of};
use crate::error::RegistryError;
use crate::page::{
    cut_entry, entries_of, find_entry, is_last_match, lemma_append_entries, lemma_entry_within,
    lemma_without_entry, overwrite, page_size, without_entry, write_bytes,
};
use crate::slot::Slot;
use crate::state::constants::{id, id_bytes};
use crate::utils::AccountInfoHelpers;
use vstd::prelude::*;

verus! {

/// What reading a record of kind `tag` out of a slot gives: the count in its
/// header, or the reason why the slot holds no such record.
pub open spec fn decode_outcome(owner: Seq<u8>, data: Seq<u8>, tag: u32) -> Result<
    u32,
    RegistryError,
> {
    if owner != id_bytes() {
        Err(RegistryError::OwnershipMismatch)
    } else if data.len() < 8 {
        Err(RegistryError::BufferSizeMismatch)
    } else if tag_of(data) != tag {
        Err(RegistryError::SchemaTagMismatch)
    } else {
        Ok(count_of(data))
    }
}

/// Reads the header of a slot that has to hold a record of kind `tag`.
pub fn decode_header(account: &Slot, tag: u32) -> (r: Result<u32, RegistryError>)
    ensures
        r == decode_outcome(account.owner@, account.data@, tag),
{
    let program = id();
    account.assert_owner(&program)?;
    match read_header(account.data.as_slice()) {
        None => Err(RegistryError::BufferSizeMismatch),
        Some((found, count)) => {
            if found != tag {
                Err(RegistryError::SchemaTagMismatch)
            } else {
                Ok(count)
            }
        },
    }
}

/// What writing a header into a buffer gives: the buffer with its first eight
/// bytes replaced, or `BufferSizeMismatch` where the buffer has not exactly the
/// size of a page with `count` entries.
pub open spec fn encode_outcome(data: Seq<u8>, tag: u32, count: u32, width: int) -> Result<
    Seq<u8>,
    RegistryError,
> {
    if data.len() != page_size(width, count as int) {
        Err(RegistryError::BufferSizeMismatch)
    } else {
        Ok(overwrite(data, 0, header_spec(tag, count)))
    }
}

/// Whether a buffer has exactly the size of a page with `count` entries.
pub fn has_page_size(data: &Vec<u8>, width: usize, count: u32) -> (fits: bool)
    ensures
        fits == (data@.len() == page_size(width as int, count as int)),
{
    assert(0 <= width * count <= 0xffff_ffff_ffff_ffff * 0xffff_ffff) by (nonlinear_arith)
        requires
            0 <= width <= 0xffff_ffff_ffff_ffff,
            0 <= count <= 0xffff_ffff,
    ;
    let expected: u128 = 8 + (width as u128) * (count as u128);
    data.len() as u128 == expected
}

/// Writes the header of a record into a slot whose buffer has the record's size.
pub fn encode_header(account: &mut Slot, tag: u32, count: u32, width: usize) -> (r: Result<
    (),
    RegistryError,
>)
    ensures
        final(account).same_but_data(old(account)),
        match encode_outcome(old(account).data@, tag, count, width as int) {
            Ok(data) => r is Ok && final(account).data@ == data,
            Err(e) => r == Err::<(), RegistryError>(e) && final(account).data@ == old(account).data@,
        },
{
    if !has_page_size(&account.data, width, count) {
        return Err(RegistryError::BufferSizeMismatch);
    }
    proof {
        assert(width * count >= 0) by (nonlinear_arith)
            requires
                0 <= width,
                0 <= count,
        ;
    }
    let header = header_bytes(tag, count);
    write_bytes(&mut account.data, 0, header.as_slice());
    Ok(())
}

/// Where a search starts: at the hint where there is one, else at the last entry.
pub open spec fn search_start(hint: Option<u32>, count: u32) -> int {
    match hint {
        Some(i) => i as int,
        None => count - 1,
    }
}

/// What searching a page for `needle` gives. A slot that holds no record of
/// kind `tag` fails as reading it does; an empty page holds nothing; a buffer
/// shorter than its count fails with `BufferSizeMismatch`; a hint beyond the
/// last entry fails with `IndexOutOfRange`; else the result is the greatest
/// position at or below the start that holds `needle`.
pub open spec fn find_outcome(
    owner: Seq<u8>,
    data: Seq<u8>,
    tag: u32,
    width: int,
    needle: Seq<u8>,
    hint: Option<u32>,
    r: Result<Option<u32>, RegistryError>,
) -> bool {
    match decode_outcome(owner, data, tag) {
        Err(e) => r == Err::<Option<u32>, RegistryError>(e),
        Ok(count) => if count == 0 {
            r == Ok::<Option<u32>, RegistryError>(None)
        } else if data.len() < page_size(width, count as int) {
            r == Err::<Option<u32>, RegistryError>(RegistryError::BufferSizeMismatch)
        } else if search_start(hint, count) >= count {
            r == Err::<Option<u32>, RegistryError>(RegistryError::IndexOutOfRange)
        } else {
            r matches Ok(found) && is_last_match(
                entries_of(data, width, count as nat),
                search_start(hint, count),
                needle,
                found,
            )
        },
    }
}

/// Whether a buffer is at least as long as a page with `count` entries.
pub fn holds_entries(data: &Vec<u8>, width: usize, count: u32) -> (fits: bool)
    ensures
        fits == (data@.len() >= page_size(width as int, count as int)),
{
    assert(0 <= width * count <= 0xffff_ffff_ffff_ffff * 0xffff_ffff) by (nonlinear_arith)
        requires
            0 <= width <= 0xffff_ffff_ffff_ffff,
            0 <= count <= 0xffff_ffff,
    ;
    let needed: u128 = 8 + (width as u128) * (count as u128);
    data.len() as u128 >= needed
}

/// Searches the page of kind `tag` that a slot holds for `needle`, from the
/// hinted position, or from the last entry, down to the first.
pub fn find_in_page(
    account: &Slot,
    tag: u32,
    width: usize,
    needle: &[u8],
    hint: Option<u32>,
) -> (r: Result<Option<u32>, RegistryError>)
    ensures
        find_outcome(account.owner@, account.data@, tag, width as int, needle@, hint, r),
{
    let count = decode_header(account, tag)?;
    if count == 0 {
        return Ok(None);
    }
    if !holds_entries(&account.data, width, count) {
        return Err(RegistryError::BufferSizeMismatch);
    }
    let start = match hint {
        Some(i) => i,
        None => count - 1,
    };
    if start >= count {
        return Err(RegistryError::IndexOutOfRange);
    }
    let ghost entries = entries_of(account.data@, width as int, count as nat);
    if needle.len() != width {
        assert forall|j: int| 0 <= j <= start implies entries[j] != needle@ by {
            lemma_entry_within(width as int, j, count as int);
            assert(entries[j].len() == width);
        }
        return Ok(None);
    }
    proof {
        lemma_entry_within(width as int, start as int, count as int);
    }
    let found = find_entry(account.data.as_slice(), width, start, needle);
    proof {
        let upto = entries_of(account.data@, width as int, (start + 1) as nat);
        assert forall|j: int| 0 <= j <= start implies upto[j] == entries[j] by {}
    }
    Ok(found)
}

/// What appending `value` to a page with `count` entries gives. A page that is
/// full fails with `PageCapacityExceeded`; a buffer too short for the entries
/// that the page counts fails with `BufferSizeMismatch`; a value that the page
/// holds already fails with `duplicate`; a buffer that has not exactly the size
/// of the page with one entry more fails with `BufferSizeMismatch`; else the
/// value is written behind the last entry.
pub open spec fn append_outcome(
    data: Seq<u8>,
    width: int,
    count: u32,
    capacity: u32,
    value: Seq<u8>,
    duplicate: RegistryError,
) -> Result<Seq<u8>, RegistryError> {
    if count >= capacity {
        Err(RegistryError::PageCapacityExceeded)
    } else if data.len() < page_size(width, count as int) {
        Err(RegistryError::BufferSizeMismatch)
    } else if entries_of(data, width, count as nat).contains(value) {
        Err(duplicate)
    } else if data.len() != page_size(width, count + 1) {
        Err(RegistryError::BufferSizeMismatch)
    } else {
        Ok(overwrite(data, page_size(width, count as int), value))
    }
}

/// Writes `value` behind the `count` entries of the page that a slot holds.
/// On failure the slot is left as it was.
pub fn append_to_page(
    account: &mut Slot,
    width: usize,
    count: u32,
    capacity: u32,
    value: &[u8],
    duplicate: RegistryError,
) -> (r: Result<(), RegistryError>)
    requires
        value@.len() == width,
    ensures
        final(account).same_but_data(old(account)),
        match append_outcome(old(account).data@, width as int, count, capacity, value@, duplicate) {
            Ok(data) => r is Ok && final(account).data@ == data,
            Err(e) => r == Err::<(), RegistryError>(e) && final(account).data@ == old(account).data@,
        },
        r is Ok ==> entries_of(final(account).data@, width as int, (count + 1) as nat)
            == entries_of(old(account).data@, width as int, count as nat).push(value@),
{
    if count >= capacity {
        return Err(RegistryError::PageCapacityExceeded);
    }
    if !holds_entries(&account.data, width, count) {
        return Err(RegistryError::BufferSizeMismatch);
    }
    let ghost entries = entries_of(account.data@, width as int, count as nat);
    if count > 0 {
        let found = find_entry(account.data.as_slice(), width, count - 1, value);
        if found.is_some() {
            assert(entries[found.unwrap() as int] == value@);
            return Err(duplicate);
        }
    }
    assert(!entries.contains(value@));
    if !has_page_size(&account.data, width, count + 1) {
        return Err(RegistryError::BufferSizeMismatch);
    }
    proof {
        lemma_entry_within(width as int, count as int, count + 1);
    }
    let total = account.data.len();
    assert(page_size(width as int, count as int) + width == total);
    assert(width * count >= 0) by (nonlinear_arith)
        requires
            0 <= width,
            0 <= count,
    ;
    let at = 8 + width * (count as usize);
    proof {
        lemma_append_entries(account.data@, width as int, count as int, value@);
    }
    write_bytes(&mut account.data, at, value);
    Ok(())
}

/// A header written into a buffer of the record's size, in a slot that the
/// registry owns, reads back with the tag and the count that were written.
pub proof fn lemma_decode_of_encode(owner: Seq<u8>, data: Seq<u8>, tag: u32, count: u32, width: int)
    requires
        owner == id_bytes(),
        0 <= width,
        data.len() == page_size(width, count as int),
    ensures
        encode_outcome(data, tag, count, width) is Ok,
        decode_outcome(owner, encode_outcome(data, tag, count, width)->Ok_0, tag) == Ok::<
            u32,
            RegistryError,
        >(count),
{
    assert(width * count >= 0) by (nonlinear_arith)
        requires
            0 <= width,
            0 <= count,
    ;
    let header = header_spec(tag, count);
    let out = overwrite(data, 0, header);
    crate::codec::lemma_header_round_trip(tag, count, data.subrange(8, data.len() as int));
    assert(out =~= header + data.subrange(8, data.len() as int));
}

/// Whether `r` and `after` are what removing `value` from a page with `count`
/// entries gives. A page that counts more than it may hold fails with
/// `PageCapacityExceeded`; a buffer that has not exactly the size of the page
/// fails with `BufferSizeMismatch`; a value that the page does not hold fails
/// with `NotFound`; else the last entry that holds the value is cut out and its
/// position returned, so that the other entries stay in their order. On failure
/// the bytes stay.
pub open spec fn remove_outcome(
    data: Seq<u8>,
    width: int,
    count: u32,
    capacity: u32,
    value: Seq<u8>,
    r: Result<u32, RegistryError>,
    after: Seq<u8>,
) -> bool {
    if count > capacity {
        r == Err::<u32, RegistryError>(RegistryError::PageCapacityExceeded) && after == data
    } else if data.len() != page_size(width, count as int) {
        r == Err::<u32, RegistryError>(RegistryError::BufferSizeMismatch) && after == data
    } else if !entries_of(data, width, count as nat).contains(value) {
        r == Err::<u32, RegistryError>(RegistryError::NotFound) && after == data
    } else {
        &&& r matches Ok(at)
        &&& is_last_match(entries_of(data, width, count as nat), count - 1, value, Some(at))
        &&& after == without_entry(data, width, at as int)
        &&& entries_of(after, width, (count - 1) as nat) == entries_of(
            data,
            width,
            count as nat,
        ).remove(at as int)
    }
}

/// Removes `value` from the `count` entries of the page that a slot holds and
/// returns the position it was at.
pub fn remove_from_page(
    account: &mut Slot,
    width: usize,
    count: u32,
    capacity: u32,
    value: &[u8],
) -> (r: Result<u32, RegistryError>)
    requires
        value@.len() == width,
    ensures
        final(account).same_but_data(old(account)),
        remove_outcome(
            old(account).data@,
            width as int,
            count,
            capacity,
            value@,
            r,
            final(account).data@,
        ),
{
    if count > capacity {
        return Err(RegistryError::PageCapacityExceeded);
    }
    if !has_page_size(&account.data, width, count) {
        return Err(RegistryError::BufferSizeMismatch);
    }
    let ghost entries = entries_of(account.data@, width as int, count as nat);
    if count == 0 {
        return Err(RegistryError::NotFound);
    }
    match find_entry(account.data.as_slice(), width, count - 1, value) {
        None => Err(RegistryError::NotFound),
        Some(at) => {
            assert(entries.contains(value@)) by {
                assert(entries[at as int] == value@);
            }
            proof {
                lemma_without_entry(account.data@, width as int, count as int, at as int);
            }
            cut_entry(&mut account.data, width, count, at);
            Ok(at)
        },
    }
}

} // verus!

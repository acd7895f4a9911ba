use vstd::prelude::*;

verus! {

/// The `width` bytes of `data` that start at `offset`.
pub open spec fn span(data: Seq<u8>, offset: int, width: int) -> Seq<u8> {
    data.subrange(offset, offset + width)
}

/// `data` with the bytes from `offset` on replaced by `value`, byte for byte.
pub open spec fn overwrite(data: Seq<u8>, offset: int, value: Seq<u8>) -> Seq<u8> {
    data.subrange(0, offset) + value + data.subrange(offset + value.len(), data.len() as int)
}

/// Number of bytes of a page that holds `count` entries of `width` bytes each
/// behind its eight-byte header.
pub open spec fn page_size(width: int, count: int) -> int {
    8 + width * count
}

/// The entry stored at position `i` of a page whose entries are `width` bytes wide.
pub open spec fn entry_at(data: Seq<u8>, width: int, i: int) -> Seq<u8> {
    span(data, page_size(width, i), width)
}

/// The first `count` entries of a page whose entries are `width` bytes wide.
pub open spec fn entries_of(data: Seq<u8>, width: int, count: nat) -> Seq<Seq<u8>> {
    Seq::new(count, |i: int| entry_at(data, width, i))
}

/// Whether `found` is the greatest position at or below `start` that holds
/// `needle`, or `None` where no position at or below `start` holds it.
pub open spec fn is_last_match(
    entries: Seq<Seq<u8>>,
    start: int,
    needle: Seq<u8>,
    found: Option<u32>,
) -> bool {
    match found {
        Some(i) => {
            &&& 0 <= i <= start
            &&& entries[i as int] == needle
            &&& forall|j: int| i < j <= start ==> entries[j] != needle
        },
        None => forall|j: int| 0 <= j <= start ==> entries[j] != needle,
    }
}

/// Entry `i` of a page with `count` entries lies inside the page.
pub proof fn lemma_entry_within(width: int, i: int, count: int)
    requires
        0 <= i < count,
        0 <= width,
    ensures
        8 <= page_size(width, i),
        page_size(width, i) + width == page_size(width, i + 1),
        page_size(width, i + 1) <= page_size(width, count),
{
    assert(width * i >= 0) by (nonlinear_arith)
        requires
            0 <= i,
            0 <= width,
    ;
    assert(width * i + width == width * (i + 1)) by (nonlinear_arith);
    assert(width * (i + 1) <= width * count) by (nonlinear_arith)
        requires
            i + 1 <= count,
            0 <= width,
    ;
}

/// Whether the bytes of `data` from `offset` on are those of `needle`.
pub fn bytes_match(data: &[u8], offset: usize, needle: &[u8]) -> (same: bool)
    requires
        offset + needle@.len() <= data@.len(),
    ensures
        same == (span(data@, offset as int, needle@.len() as int) == needle@),
{
    let n = needle.len();
    let total = data.len();
    let mut i: usize = 0;
    while i < n
        invariant
            i <= n,
            n == needle@.len(),
            total == data@.len(),
            offset + n <= total,
            forall|j: int| 0 <= j < i ==> data@[offset + j] == needle@[j],
        decreases n - i,
    {
        if data[offset + i] != needle[i] {
            assert(span(data@, offset as int, n as int)[i as int] != needle@[i as int]);
            return false;
        }
        i += 1;
    }
    assert(span(data@, offset as int, n as int) =~= needle@);
    true
}

/// Copies `value` over the bytes of `data` from `offset` on; the length stays.
pub fn write_bytes(data: &mut Vec<u8>, offset: usize, value: &[u8])
    requires
        offset + value@.len() <= old(data)@.len(),
    ensures
        final(data)@ == overwrite(old(data)@, offset as int, value@),
        final(data)@.len() == old(data)@.len(),
{
    let n = value.len();
    let total = data.len();
    let mut i: usize = 0;
    while i < n
        invariant
            i <= n,
            n == value@.len(),
            data@.len() == old(data)@.len(),
            total == data@.len(),
            offset + n <= total,
            forall|j: int| 0 <= j < i ==> data@[offset + j] == value@[j],
            forall|j: int|
                0 <= j < data@.len() && !(offset <= j < offset + i) ==> data@[j] == old(data)@[j],
        decreases n - i,
    {
        data[offset + i] = value[i];
        i += 1;
    }
    assert(data@ =~= overwrite(old(data)@, offset as int, value@));
}

/// After an overwrite the written span reads back as the value, and every span
/// that does not meet it reads as before.
pub proof fn lemma_overwrite_spans(data: Seq<u8>, offset: int, value: Seq<u8>)
    requires
        0 <= offset,
        offset + value.len() <= data.len(),
    ensures
        overwrite(data, offset, value).len() == data.len(),
        span(overwrite(data, offset, value), offset, value.len() as int) == value,
        forall|o: int, w: int|
            0 <= o && 0 <= w && o + w <= data.len() && (o + w <= offset || offset + value.len()
                <= o) ==> #[trigger] span(overwrite(data, offset, value), o, w) == span(data, o, w),
{
    let out = overwrite(data, offset, value);
    assert(span(out, offset, value.len() as int) =~= value);
    assert forall|o: int, w: int|
        0 <= o && 0 <= w && o + w <= data.len() && (o + w <= offset || offset + value.len()
            <= o) implies #[trigger] span(out, o, w) == span(data, o, w) by {
        assert(span(out, o, w) =~= span(data, o, w));
    }
}

/// Looks for `needle` among the entries of a page, from position `start` down
/// to the first, and returns the first position met that holds it.
pub fn find_entry(data: &[u8], width: usize, start: u32, needle: &[u8]) -> (found: Option<u32>)
    requires
        needle@.len() == width,
        page_size(width as int, start + 1) <= data@.len(),
    ensures
        is_last_match(entries_of(data@, width as int, (start + 1) as nat), start as int, needle@, found),
{
    let total = data.len();
    let ghost entries = entries_of(data@, width as int, (start + 1) as nat);
    let mut i: u32 = start;
    loop
        invariant
            i <= start,
            total == data@.len(),
            needle@.len() == width,
            page_size(width as int, start + 1) <= total,
            entries == entries_of(data@, width as int, (start + 1) as nat),
            forall|j: int| i < j <= start ==> entries[j] != needle@,
        decreases i,
    {
        proof {
            lemma_entry_within(width as int, i as int, start + 1);
        }
        let offset = 8 + width * (i as usize);
        if bytes_match(data, offset, needle) {
            assert(entries[i as int] == needle@);
            return Some(i);
        }
        assert(entries[i as int] != needle@);
        if i == 0 {
            return None;
        }
        i -= 1;
    }
}

/// Writing a value behind the last entry of a page adds it to the entries and
/// leaves the header and the entries before it as they were.
pub proof fn lemma_append_entries(data: Seq<u8>, width: int, count: int, value: Seq<u8>)
    requires
        0 <= width,
        0 <= count,
        value.len() == width,
        page_size(width, count + 1) <= data.len(),
    ensures
        entries_of(overwrite(data, page_size(width, count), value), width, (count + 1) as nat)
            == entries_of(data, width, count as nat).push(value),
        span(overwrite(data, page_size(width, count), value), 0, 8) == span(data, 0, 8),
{
    let at = page_size(width, count);
    let out = overwrite(data, at, value);
    lemma_entry_within(width, count, count + 1);
    lemma_overwrite_spans(data, at, value);
    let before = entries_of(data, width, count as nat);
    let after = entries_of(out, width, (count + 1) as nat);
    assert forall|i: int| 0 <= i < count + 1 implies after[i] == before.push(value)[i] by {
        if i < count {
            lemma_entry_within(width, i, count);
            assert(span(out, page_size(width, i), width) == span(data, page_size(width, i), width));
        }
    }
    assert(after =~= before.push(value));
}

/// A page's bytes without the entry at position `at`: what lies before the
/// entry, followed by what lies behind it.
pub open spec fn without_entry(data: Seq<u8>, width: int, at: int) -> Seq<u8> {
    data.subrange(0, page_size(width, at)) + data.subrange(
        page_size(width, at + 1),
        data.len() as int,
    )
}

/// Cutting an entry out of a page removes it from the entries, keeps the
/// others in their order and leaves the header as it was.
pub proof fn lemma_without_entry(data: Seq<u8>, width: int, count: int, at: int)
    requires
        0 <= width,
        0 <= at < count,
        data.len() == page_size(width, count),
    ensures
        without_entry(data, width, at).len() == page_size(width, count - 1),
        entries_of(without_entry(data, width, at), width, (count - 1) as nat) == entries_of(
            data,
            width,
            count as nat,
        ).remove(at),
        span(without_entry(data, width, at), 0, 8) == span(data, 0, 8),
{
    let out = without_entry(data, width, at);
    lemma_entry_within(width, at, count);
    assert(page_size(width, count - 1) == page_size(width, count) - width) by (nonlinear_arith);
    let before = entries_of(data, width, count as nat);
    let after = entries_of(out, width, (count - 1) as nat);
    assert forall|i: int| 0 <= i < count - 1 implies after[i] == before.remove(at)[i] by {
        lemma_entry_within(width, i, count - 1);
        if i < at {
            lemma_entry_within(width, i, at);
            assert(span(out, page_size(width, i), width) =~= span(data, page_size(width, i), width));
        } else {
            lemma_entry_within(width, i + 1, count);
            lemma_entry_within(width, at, i + 1);
            assert(page_size(width, i + 1) == page_size(width, i) + width);
            assert(span(out, page_size(width, i), width) =~= span(
                data,
                page_size(width, i + 1),
                width,
            ));
        }
    }
    assert(after =~= before.remove(at));
    assert(span(out, 0, 8) =~= span(data, 0, 8));
}

/// Cuts the entry at position `at` out of a page; the entries behind it move up.
pub fn cut_entry(data: &mut Vec<u8>, width: usize, count: u32, at: u32)
    requires
        at < count,
        old(data)@.len() == page_size(width as int, count as int),
    ensures
        final(data)@ == without_entry(old(data)@, width as int, at as int),
{
    proof {
        lemma_entry_within(width as int, at as int, count as int);
        assert(width * at >= 0) by (nonlinear_arith)
            requires
                0 <= width,
                0 <= at,
        ;
    }
    let total = data.len();
    let start = 8 + width * (at as usize);
    let mut out: Vec<u8> = Vec::new();
    out.extend_from_slice(vstd::slice::slice_subrange(data.as_slice(), 0, start));
    out.extend_from_slice(vstd::slice::slice_subrange(data.as_slice(), start + width, total));
    *data = out;
}

} // verus!

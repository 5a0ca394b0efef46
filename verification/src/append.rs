//! What appending a section establishes and what it leaves alone.

use crate::align::{aligned, lemma_aligned_is_multiple};
use crate::bytes::{le16_bytes, le32, le32_bytes, overwritten, zeros};
use crate::layout::{
    append_failure, file_alignment, has_markers, holds_section, keeps_sections,
    next_raw_offset, nt_offset, optional_header_size, padded_name, raw_size_for,
    section_alignment, section_characteristics, section_count, section_entry_bytes,
    section_entry_offset, section_in_bounds, section_name, section_raw_end, section_raw_offset,
    section_raw_size,
    section_table_end, section_table_offset, section_virtual_address, section_virtual_size,
    size_of_headers, size_of_image, size_of_initialized_data, stored_checksum, valid_stub,
    variant_of, with_section, with_section_headers, READABLE_INITIALIZED_DATA,
};
use vstd::prelude::*;

verus! {

/// Appending touches the headers in three places only — the new table entry,
/// the section count and the size of initialized data — and adds bytes
/// behind the old end.
pub proof fn lemma_append_touches(b: Seq<u8>, name: Seq<u8>, payload: Seq<u8>)
    requires
        valid_stub(b),
        append_failure(b, name, payload) is None,
    ensures
        ({
            let a = with_section(b, name, payload);
            let nt = nt_offset(b);
            let end = section_table_end(b);
            let start = next_raw_offset(b);
            let raw_size = raw_size_for(b, payload.len() as int);
            let entry = section_entry_bytes(name, payload.len() as int, raw_size, start);
            &&& b.len() <= start
            &&& payload.len() <= raw_size
            &&& a.len() == start + raw_size
            &&& entry.len() == 40
            &&& forall|k: int|
                0 <= k < b.len() && !(end <= k < end + 40) && !(nt + 6 <= k < nt + 8) && !(nt + 32
                    <= k < nt + 36) ==> #[trigger] a[k] == b[k]
            &&& forall|k: int| end <= k < end + 40 ==> #[trigger] a[k] == entry[k - end]
            &&& forall|k: int|
                nt + 6 <= k < nt + 8 ==> #[trigger] a[k] == le16_bytes(section_count(b) + 1)[k - (nt
                    + 6)]
            &&& forall|k: int|
                nt + 32 <= k < nt + 36 ==> #[trigger] a[k] == le32_bytes(
                    size_of_initialized_data(b) + raw_size,
                )[k - (nt + 32)]
            &&& forall|k: int| b.len() <= k < start ==> #[trigger] a[k] == 0
            &&& forall|k: int| start <= k < start + payload.len() ==> #[trigger] a[k] == payload[k - start]
            &&& forall|k: int| start + payload.len() <= k < a.len() ==> #[trigger] a[k] == 0
        }),
{
    let fa = file_alignment(b);
    let nt = nt_offset(b);
    let end = section_table_end(b);
    let start = next_raw_offset(b);
    let raw_size = raw_size_for(b, payload.len() as int);
    let entry = section_entry_bytes(name, payload.len() as int, raw_size, start);
    let count = le16_bytes(section_count(b) + 1);
    let data = le32_bytes(size_of_initialized_data(b) + raw_size);
    lemma_power_of_two_positive(fa as nat);
    lemma_aligned_is_multiple(b.len() as int, fa);
    lemma_aligned_is_multiple(payload.len() as int, fa);
    assert(entry.len() == 40);
    assert(64 <= nt && nt + 120 <= end && end + 40 <= b.len());
    let h = with_section_headers(b, name, payload.len() as int);
    lemma_three_patches(b, end, entry, nt + 6, count, nt + 32, data);
    let gap = zeros((start - b.len()) as nat);
    let tail = zeros((raw_size - payload.len()) as nat);
    lemma_four_parts(h, gap, payload, tail);
}

/// What a buffer holds after three pieces were written over it, one after the other.
pub proof fn lemma_three_patches(
    b: Seq<u8>,
    first_at: int,
    first: Seq<u8>,
    second_at: int,
    second: Seq<u8>,
    third_at: int,
    third: Seq<u8>,
)
    ensures
        ({
            let a = overwritten(overwritten(overwritten(b, first_at, first), second_at, second), third_at, third);
            &&& a.len() == b.len()
            &&& forall|k: int|
                0 <= k < b.len() ==> #[trigger] a[k] == if third_at <= k < third_at + third.len() {
                    third[k - third_at]
                } else if second_at <= k < second_at + second.len() {
                    second[k - second_at]
                } else if first_at <= k < first_at + first.len() {
                    first[k - first_at]
                } else {
                    b[k]
                }
        }),
{
}

/// What four pieces laid end to end hold at each place.
pub proof fn lemma_four_parts(h: Seq<u8>, gap: Seq<u8>, payload: Seq<u8>, tail: Seq<u8>)
    ensures
        ({
            let a = h + gap + payload + tail;
            &&& a.len() == h.len() + gap.len() + payload.len() + tail.len()
            &&& forall|k: int| 0 <= k < h.len() ==> #[trigger] a[k] == h[k]
            &&& forall|k: int| h.len() <= k < h.len() + gap.len() ==> #[trigger] a[k] == gap[k - h.len()]
            &&& forall|k: int|
                h.len() + gap.len() <= k < h.len() + gap.len() + payload.len() ==> #[trigger] a[k]
                    == payload[k - h.len() - gap.len()]
            &&& forall|k: int|
                h.len() + gap.len() + payload.len() <= k < a.len() ==> #[trigger] a[k] == tail[k
                    - h.len() - gap.len() - payload.len()]
        }),
{
}

/// A power of two is positive.
pub proof fn lemma_power_of_two_positive(n: nat)
    requires
        crate::align::is_power_of_two(n),
    ensures
        n > 0,
{
}

/// The fields of a table entry as they are read back from its forty bytes.
pub proof fn lemma_entry_fields(name: Seq<u8>, virtual_size: int, raw_size: int, raw_offset: int)
    requires
        name.len() <= 8,
        0 <= virtual_size <= u32::MAX,
        0 <= raw_size <= u32::MAX,
        0 <= raw_offset <= u32::MAX,
    ensures
        ({
            let entry = section_entry_bytes(name, virtual_size, raw_size, raw_offset);
            &&& entry.len() == 40
            &&& entry.subrange(0, 8) == padded_name(name)
            &&& le32(entry, 8) == virtual_size
            &&& le32(entry, 12) == 0
            &&& le32(entry, 16) == raw_size
            &&& le32(entry, 20) == raw_offset
            &&& le32(entry, 36) == READABLE_INITIALIZED_DATA
        }),
{
    let named = padded_name(name);
    let sized = named + le32_bytes(virtual_size);
    let placed = sized + le32_bytes(0);
    let rounded = placed + le32_bytes(raw_size);
    let located = rounded + le32_bytes(raw_offset);
    let padded = located + zeros(12);
    let entry = padded + le32_bytes(READABLE_INITIALIZED_DATA as int);
    assert(entry == section_entry_bytes(name, virtual_size, raw_size, raw_offset));
    assert(named.len() == 8);
    lemma_le32_at_end(named, virtual_size);
    lemma_le32_at_end(sized, 0);
    lemma_le32_at_end(placed, raw_size);
    lemma_le32_at_end(rounded, raw_offset);
    assert(padded.len() == 36);
    lemma_le32_at_end(padded, READABLE_INITIALIZED_DATA as int);
    lemma_le32_in_prefix(sized, le32_bytes(0), 8);
    lemma_le32_in_prefix(placed, le32_bytes(raw_size), 8);
    lemma_le32_in_prefix(placed, le32_bytes(raw_size), 12);
    lemma_le32_in_prefix(rounded, le32_bytes(raw_offset), 8);
    lemma_le32_in_prefix(rounded, le32_bytes(raw_offset), 12);
    lemma_le32_in_prefix(rounded, le32_bytes(raw_offset), 16);
    lemma_le32_in_prefix(located, zeros(12), 8);
    lemma_le32_in_prefix(located, zeros(12), 12);
    lemma_le32_in_prefix(located, zeros(12), 16);
    lemma_le32_in_prefix(located, zeros(12), 20);
    lemma_le32_in_prefix(padded, le32_bytes(READABLE_INITIALIZED_DATA as int), 8);
    lemma_le32_in_prefix(padded, le32_bytes(READABLE_INITIALIZED_DATA as int), 12);
    lemma_le32_in_prefix(padded, le32_bytes(READABLE_INITIALIZED_DATA as int), 16);
    lemma_le32_in_prefix(padded, le32_bytes(READABLE_INITIALIZED_DATA as int), 20);
    assert(entry.subrange(0, 8) =~= named);
}

/// An integer laid behind a sequence is read back at the sequence's old end.
pub proof fn lemma_le32_at_end(x: Seq<u8>, v: int)
    requires
        0 <= v <= u32::MAX,
    ensures
        (x + le32_bytes(v)).len() == x.len() + 4,
        le32(x + le32_bytes(v), x.len() as int) == v,
{
    crate::bytes::lemma_le32_of_bytes(v);
    let y = x + le32_bytes(v);
    let n = x.len() as int;
    assert(y[n] == le32_bytes(v)[0]);
    assert(y[n + 1] == le32_bytes(v)[1]);
    assert(y[n + 2] == le32_bytes(v)[2]);
    assert(y[n + 3] == le32_bytes(v)[3]);
}

/// What lies inside a sequence is read the same after something was laid behind it.
pub proof fn lemma_le32_in_prefix(x: Seq<u8>, y: Seq<u8>, at: int)
    requires
        0 <= at,
        at + 4 <= x.len(),
    ensures
        le32(x + y, at) == le32(x, at),
{
}

/// Appending leaves every header field as it was, but for the section count,
/// which rises by one, and the size of initialized data, which grows by the
/// raw size of the new section.
pub proof fn lemma_append_fields(b: Seq<u8>, name: Seq<u8>, payload: Seq<u8>)
    requires
        valid_stub(b),
        append_failure(b, name, payload) is None,
    ensures
        ({
            let a = with_section(b, name, payload);
            &&& has_markers(a)
            &&& nt_offset(a) == nt_offset(b)
            &&& variant_of(a) == variant_of(b)
            &&& optional_header_size(a) == optional_header_size(b)
            &&& section_table_offset(a) == section_table_offset(b)
            &&& section_alignment(a) == section_alignment(b)
            &&& file_alignment(a) == file_alignment(b)
            &&& size_of_image(a) == size_of_image(b)
            &&& size_of_headers(a) == size_of_headers(b)
            &&& stored_checksum(a) == stored_checksum(b)
            &&& section_count(a) == section_count(b) + 1
            &&& size_of_initialized_data(a) == size_of_initialized_data(b) + raw_size_for(
                b,
                payload.len() as int,
            )
        }),
{
    lemma_append_touches(b, name, payload);
    let a = with_section(b, name, payload);
    let nt = nt_offset(b);
    let end = section_table_end(b);
    assert(64 <= nt && nt + 120 <= end && end + 40 <= b.len());
    assert(nt_offset(a) == nt);
    crate::bytes::lemma_le16_of_bytes(section_count(b) + 1);
    crate::bytes::lemma_le32_of_bytes(
        size_of_initialized_data(b) + raw_size_for(b, payload.len() as int),
    );
}

/// The table entry of the appended section holds the padded name, the exact
/// and the rounded length of the payload, the aligned start of its data, a
/// zero virtual address, and the flags of readable initialized data.
pub proof fn lemma_append_entry(b: Seq<u8>, name: Seq<u8>, payload: Seq<u8>)
    requires
        valid_stub(b),
        append_failure(b, name, payload) is None,
    ensures
        ({
            let a = with_section(b, name, payload);
            let n = section_count(b);
            &&& section_name(a, n) == padded_name(name)
            &&& section_virtual_size(a, n) == payload.len()
            &&& section_virtual_address(a, n) == 0
            &&& section_raw_size(a, n) == raw_size_for(b, payload.len() as int)
            &&& section_raw_offset(a, n) == next_raw_offset(b)
            &&& section_characteristics(a, n) == READABLE_INITIALIZED_DATA
        }),
{
    lemma_append_touches(b, name, payload);
    lemma_append_fields(b, name, payload);
    let a = with_section(b, name, payload);
    let n = section_count(b);
    let end = section_table_end(b);
    let start = next_raw_offset(b);
    let raw_size = raw_size_for(b, payload.len() as int);
    let entry = section_entry_bytes(name, payload.len() as int, raw_size, start);
    lemma_entry_fields(name, payload.len() as int, raw_size, start);
    assert(section_entry_offset(a, n) == end);
    assert(section_name(a, n) =~= entry.subrange(0, 8));
    assert(le32(a, end + 8) == le32(entry, 8));
    assert(le32(a, end + 12) == le32(entry, 12));
    assert(le32(a, end + 16) == le32(entry, 16));
    assert(le32(a, end + 20) == le32(entry, 20));
    assert(le32(a, end + 36) == le32(entry, 36));
}

/// The data of the appended section: the payload at the aligned start,
/// zeros from the payload's end to the end of the file, and zeros in the
/// gap between the old end and the aligned start.
pub proof fn lemma_append_data(b: Seq<u8>, name: Seq<u8>, payload: Seq<u8>)
    requires
        valid_stub(b),
        append_failure(b, name, payload) is None,
    ensures
        ({
            let a = with_section(b, name, payload);
            let start = next_raw_offset(b);
            &&& b.len() <= start
            &&& a.len() == start + raw_size_for(b, payload.len() as int)
            &&& payload.len() <= raw_size_for(b, payload.len() as int)
            &&& start % file_alignment(b) == 0
            &&& a.subrange(start, start + payload.len()) == payload
            &&& forall|k: int| start + payload.len() <= k < a.len() ==> #[trigger] a[k] == 0
            &&& forall|k: int| b.len() <= k < start ==> #[trigger] a[k] == 0
        }),
{
    lemma_append_touches(b, name, payload);
    let a = with_section(b, name, payload);
    let start = next_raw_offset(b);
    lemma_power_of_two_positive(file_alignment(b) as nat);
    lemma_aligned_is_multiple(b.len() as int, file_alignment(b));
    assert(a.subrange(start, start + payload.len()) =~= payload);
}

/// Appending leaves the sections that were there alone: their table entries
/// and every byte from the end of the headers to the old end of the file.
pub proof fn lemma_append_keeps_sections(b: Seq<u8>, name: Seq<u8>, payload: Seq<u8>)
    requires
        valid_stub(b),
        append_failure(b, name, payload) is None,
    ensures
        keeps_sections(with_section(b, name, payload), b),
{
    lemma_append_touches(b, name, payload);
    lemma_append_fields(b, name, payload);
    let a = with_section(b, name, payload);
    let nt = nt_offset(b);
    let end = section_table_end(b);
    assert(64 <= nt && nt + 120 <= end && end + 40 <= b.len());
    assert forall|i: int| 0 <= i < section_count(b) implies {
        &&& #[trigger] section_name(a, i) == section_name(b, i)
        &&& section_virtual_size(a, i) == section_virtual_size(b, i)
        &&& section_virtual_address(a, i) == section_virtual_address(b, i)
        &&& section_raw_size(a, i) == section_raw_size(b, i)
        &&& section_raw_offset(a, i) == section_raw_offset(b, i)
        &&& section_characteristics(a, i) == section_characteristics(b, i)
    } by {
        let at = section_entry_offset(b, i);
        assert(section_entry_offset(a, i) == at);
        assert(nt + 120 <= at && at + 40 <= end);
        assert(section_name(a, i) =~= section_name(b, i));
    }
}

/// The appended section holds its payload.
pub proof fn lemma_append_holds(b: Seq<u8>, name: Seq<u8>, payload: Seq<u8>)
    requires
        valid_stub(b),
        append_failure(b, name, payload) is None,
    ensures
        holds_section(with_section(b, name, payload), section_count(b), name, payload),
{
    reveal(holds_section);
    lemma_append_fields(b, name, payload);
    lemma_append_entry(b, name, payload);
    lemma_append_data(b, name, payload);
}

/// The appended section's data starts at or behind the old end of the file
/// and ends with the new one; the file is no shorter than before, its
/// alignment is the same, and the size of initialized data has grown by the
/// payload's length rounded up to the alignment.
pub proof fn lemma_append_layout(b: Seq<u8>, name: Seq<u8>, payload: Seq<u8>)
    requires
        valid_stub(b),
        append_failure(b, name, payload) is None,
    ensures
        ({
            let a = with_section(b, name, payload);
            &&& b.len() <= section_raw_offset(a, section_count(b))
            &&& section_raw_end(a, section_count(b)) == a.len()
            &&& section_count(a) == section_count(b) + 1
            &&& file_alignment(a) == file_alignment(b)
            &&& size_of_initialized_data(a) == size_of_initialized_data(b) + aligned(
                payload.len() as int,
                file_alignment(b),
            )
        }),
{
    lemma_append_fields(b, name, payload);
    lemma_append_entry(b, name, payload);
    lemma_append_data(b, name, payload);
}

/// A section that holds its payload still holds it in every image that
/// keeps the sections.
pub proof fn lemma_holds_kept(a: Seq<u8>, b: Seq<u8>, i: int, name: Seq<u8>, payload: Seq<u8>)
    requires
        keeps_sections(a, b),
        0 <= i < section_count(b),
        holds_section(b, i, name, payload),
    ensures
        holds_section(a, i, name, payload),
{
    reveal(holds_section);
    let start = section_raw_offset(b, i);
    assert(section_name(a, i) == section_name(b, i));
    assert(a.subrange(start, start + payload.len()) =~= b.subrange(start, start + payload.len()));
}

/// Keeping the sections carries over from image to image.
pub proof fn lemma_keeps_sections_transitive(a: Seq<u8>, b: Seq<u8>, c: Seq<u8>)
    requires
        keeps_sections(a, b),
        keeps_sections(b, c),
    ensures
        keeps_sections(a, c),
{
    assert forall|i: int| 0 <= i < section_count(c) implies {
        &&& #[trigger] section_name(a, i) == section_name(c, i)
        &&& section_virtual_size(a, i) == section_virtual_size(c, i)
        &&& section_virtual_address(a, i) == section_virtual_address(c, i)
        &&& section_raw_size(a, i) == section_raw_size(c, i)
        &&& section_raw_offset(a, i) == section_raw_offset(c, i)
        &&& section_characteristics(a, i) == section_characteristics(c, i)
    } by {
        assert(section_name(b, i) == section_name(c, i));
        assert(section_name(a, i) == section_name(b, i));
    }
}

/// After a section was appended the image is again a valid stub.
pub proof fn lemma_append_valid(b: Seq<u8>, name: Seq<u8>, payload: Seq<u8>)
    requires
        valid_stub(b),
        append_failure(b, name, payload) is None,
    ensures
        valid_stub(with_section(b, name, payload)),
        variant_of(with_section(b, name, payload)) == variant_of(b),
{
    lemma_append_fields(b, name, payload);
    lemma_append_entry(b, name, payload);
    lemma_append_data(b, name, payload);
    lemma_append_keeps_sections(b, name, payload);
    let a = with_section(b, name, payload);
    let n = section_count(b);
    assert(section_table_end(a) == section_table_end(b) + 40);
    assert forall|i: int| 0 <= i < section_count(a) implies #[trigger] section_in_bounds(a, i) by {
        if i < n {
            assert(section_in_bounds(b, i));
            assert(section_name(a, i) == section_name(b, i));
        }
    }
}

} // verus!

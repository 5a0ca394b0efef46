//! What writing an aggregate header field, and finishing an image, establish
//! and what they leave alone.

use crate::bytes::lemma_le32_of_bytes;
use crate::checksum::checksum_of;
use crate::layout::{
    checksum_holds, file_alignment, finalize_failure, finalized, finished_size_of_image,
    keeps_sections, nt_offset, optional_header_size, section_alignment,
    section_characteristics, section_count, section_entry_offset, section_in_bounds,
    section_name, section_raw_offset, section_raw_size, section_table_end,
    section_virtual_address, section_virtual_size, size_of_headers, size_of_image,
    size_of_initialized_data, stored_checksum, valid_stub, variant_of, with_checksum,
    with_checksum_cleared, with_size_of_image,
};
use vstd::prelude::*;

verus! {

/// Whether two images differ at most in the four bytes at `at`.
pub open spec fn same_but_field(a: Seq<u8>, b: Seq<u8>, at: int) -> bool {
    &&& a.len() == b.len()
    &&& forall|k: int| 0 <= k < b.len() && !(at <= k < at + 4) ==> #[trigger] a[k] == b[k]
}

/// An image that differs from a valid stub only in one of the three
/// aggregate fields — the size of initialized data, the size of image or the
/// checksum — is a valid stub with the same layout, the same sections and
/// the same other fields.
pub proof fn lemma_aggregate_changed(a: Seq<u8>, b: Seq<u8>, field: int)
    requires
        valid_stub(b),
        field == 32 || field == 80 || field == 88,
        same_but_field(a, b, nt_offset(b) + field),
    ensures
        valid_stub(a),
        nt_offset(a) == nt_offset(b),
        variant_of(a) == variant_of(b),
        optional_header_size(a) == optional_header_size(b),
        section_alignment(a) == section_alignment(b),
        file_alignment(a) == file_alignment(b),
        keeps_sections(a, b),
        a.len() == b.len(),
        section_count(a) == section_count(b),
        field != 32 ==> size_of_initialized_data(a) == size_of_initialized_data(b),
        field != 80 ==> size_of_image(a) == size_of_image(b),
        field != 88 ==> stored_checksum(a) == stored_checksum(b),
{
    let nt = nt_offset(b);
    let end = section_table_end(b);
    assert(64 <= nt && nt + 120 <= end && end <= size_of_headers(b) <= b.len());
    assert(nt_offset(a) == nt);
    assert forall|i: int| 0 <= i < section_count(b) implies {
        &&& #[trigger] section_name(a, i) == section_name(b, i)
        &&& section_virtual_size(a, i) == section_virtual_size(b, i)
        &&& section_virtual_address(a, i) == section_virtual_address(b, i)
        &&& section_raw_size(a, i) == section_raw_size(b, i)
        &&& section_raw_offset(a, i) == section_raw_offset(b, i)
        &&& section_characteristics(a, i) == section_characteristics(b, i)
    } by {
        let at = section_entry_offset(b, i);
        assert(section_entry_offset(a, i) == at);
        assert(nt + 120 <= at && at + 40 <= end);
        assert(section_name(a, i) =~= section_name(b, i));
    }
    assert forall|i: int| 0 <= i < section_count(a) implies #[trigger] section_in_bounds(a, i) by {
        assert(section_in_bounds(b, i));
        assert(section_name(a, i) == section_name(b, i));
    }
}

/// Finishing records the size of image and a checksum that holds, and
/// leaves the layout, the other fields and the sections alone.
pub proof fn lemma_finalized(b: Seq<u8>)
    requires
        valid_stub(b),
        finalize_failure(b) is None,
    ensures
        valid_stub(finalized(b)),
        variant_of(finalized(b)) == variant_of(b),
        checksum_holds(finalized(b)),
        size_of_image(finalized(b)) == finished_size_of_image(b),
        finished_size_of_image(finalized(b)) == finished_size_of_image(b),
        size_of_initialized_data(finalized(b)) == size_of_initialized_data(b),
        file_alignment(finalized(b)) == file_alignment(b),
        section_alignment(finalized(b)) == section_alignment(b),
        keeps_sections(finalized(b), b),
        finalized(b).len() == b.len(),
        section_count(finalized(b)) == section_count(b),
{
    let nt = nt_offset(b);
    let size = finished_size_of_image(b);
    crate::append::lemma_power_of_two_positive(section_alignment(b) as nat);
    crate::align::lemma_aligned_is_multiple(
        crate::layout::last_raw_end(b),
        section_alignment(b),
    );
    let sized = with_size_of_image(b, size);
    assert(same_but_field(sized, b, nt + 80));
    lemma_aggregate_changed(sized, b, 80);
    lemma_le32_of_bytes(size);
    assert(size_of_image(sized) == size);
    let cleared = with_checksum_cleared(sized);
    let sum = checksum_of(cleared);
    let done = with_checksum(sized, sum);
    assert(done == finalized(b));
    assert(same_but_field(done, sized, nt + 88));
    lemma_aggregate_changed(done, sized, 88);
    lemma_le32_of_bytes(sum);
    assert(stored_checksum(done) == sum);
    assert(with_checksum_cleared(done) =~= cleared);
}

} // verus!

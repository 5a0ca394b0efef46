//! Where the header fields and the section table of a PE image lie, as
//! functions of the image's bytes.

use crate::align::{aligned, is_power_of_two};
use crate::bytes::{le16, le16_bytes, le32, le32_bytes, overwritten, zeros};
use crate::checksum::checksum_of;
use crate::error::Error;
use vstd::prelude::*;

verus! {

/// "MZ", the first two bytes of the DOS header.
pub const DOS_MAGIC: u16 = 0x5A4D;

/// "PE\0\0", the first four bytes of the NT headers.
pub const PE_SIGNATURE: u32 = 0x4550;

/// The optional header magic of a 32-bit image.
pub const PE32_MAGIC: u16 = 0x10B;

/// The optional header magic of a 64-bit image.
pub const PE32_PLUS_MAGIC: u16 = 0x20B;

/// The length of the DOS header; the offset of the NT headers is stored in its last four bytes.
pub const DOS_HEADER_SIZE: usize = 64;

/// The length of one entry of the section table.
pub const SECTION_ENTRY_SIZE: usize = 40;

/// The most entries the 16-bit section count can express.
pub const MAX_SECTIONS: u16 = 0xFFFF;

/// The characteristics of every appended section: readable, initialized data.
pub const READABLE_INITIALIZED_DATA: u32 = 0x4000_0040;

/// The two layouts of the optional header.
#[derive(Clone, Copy, Debug, PartialEq, Eq, Structural)]
pub enum HeaderVariant {
    /// The 32-bit layout.
    Pe32,
    /// The 64-bit layout.
    Pe32Plus,
}

impl HeaderVariant {
    /// The length of the optional header without its data directories.
    pub open spec fn fixed_size(self) -> int {
        match self {
            HeaderVariant::Pe32 => 96,
            HeaderVariant::Pe32Plus => 112,
        }
    }

    /// The length of the optional header without its data directories.
    pub fn fixed_len(self) -> (n: u16)
        ensures
            n == self.fixed_size(),
    {
        match self {
            HeaderVariant::Pe32 => 96,
            HeaderVariant::Pe32Plus => 112,
        }
    }
}

/// The offset of the NT headers, read from the DOS header.
pub open spec fn nt_offset(b: Seq<u8>) -> int {
    le32(b, 60)
}

/// Whether `b` starts with a DOS header that points, past itself, at a PE
/// signature followed by a file header and the magic of an optional header.
pub open spec fn has_markers(b: Seq<u8>) -> bool {
    &&& b.len() >= 64
    &&& le16(b, 0) == DOS_MAGIC
    &&& 64 <= nt_offset(b)
    &&& nt_offset(b) + 26 <= b.len()
    &&& le32(b, nt_offset(b)) == PE_SIGNATURE
}

/// The magic of the optional header.
pub open spec fn optional_magic(b: Seq<u8>) -> int {
    le16(b, nt_offset(b) + 24)
}

/// The layout that the optional header's magic announces, if it is a known one.
pub open spec fn variant_of(b: Seq<u8>) -> Option<HeaderVariant> {
    if optional_magic(b) == PE32_MAGIC {
        Some(HeaderVariant::Pe32)
    } else if optional_magic(b) == PE32_PLUS_MAGIC {
        Some(HeaderVariant::Pe32Plus)
    } else {
        None
    }
}

/// The number of entries in the section table.
pub open spec fn section_count(b: Seq<u8>) -> int {
    le16(b, nt_offset(b) + 6)
}

/// The length of the optional header, as the file header gives it.
pub open spec fn optional_header_size(b: Seq<u8>) -> int {
    le16(b, nt_offset(b) + 20)
}

/// The aggregate "size of initialized data".
pub open spec fn size_of_initialized_data(b: Seq<u8>) -> int {
    le32(b, nt_offset(b) + 32)
}

/// The granularity of virtual addresses.
pub open spec fn section_alignment(b: Seq<u8>) -> int {
    le32(b, nt_offset(b) + 56)
}

/// The granularity of raw file offsets.
pub open spec fn file_alignment(b: Seq<u8>) -> int {
    le32(b, nt_offset(b) + 60)
}

/// The aggregate "size of image".
pub open spec fn size_of_image(b: Seq<u8>) -> int {
    le32(b, nt_offset(b) + 80)
}

/// The room that the image reserves for all its headers, section table included.
pub open spec fn size_of_headers(b: Seq<u8>) -> int {
    le32(b, nt_offset(b) + 84)
}

/// Where the checksum is stored.
pub open spec fn checksum_offset(b: Seq<u8>) -> int {
    nt_offset(b) + 88
}

/// The checksum that the image carries.
pub open spec fn stored_checksum(b: Seq<u8>) -> int {
    le32(b, checksum_offset(b))
}

/// Where the section table starts.
pub open spec fn section_table_offset(b: Seq<u8>) -> int {
    nt_offset(b) + 24 + optional_header_size(b)
}

/// Where the `i`-th entry of the section table starts.
pub open spec fn section_entry_offset(b: Seq<u8>, i: int) -> int {
    section_table_offset(b) + 40 * i
}

/// Where the section table ends.
pub open spec fn section_table_end(b: Seq<u8>) -> int {
    section_entry_offset(b, section_count(b))
}

/// The eight name bytes of section `i`.
pub open spec fn section_name(b: Seq<u8>, i: int) -> Seq<u8> {
    b.subrange(section_entry_offset(b, i), section_entry_offset(b, i) + 8)
}

/// The exact length of the data of section `i`.
pub open spec fn section_virtual_size(b: Seq<u8>, i: int) -> int {
    le32(b, section_entry_offset(b, i) + 8)
}

/// The virtual address of section `i`.
pub open spec fn section_virtual_address(b: Seq<u8>, i: int) -> int {
    le32(b, section_entry_offset(b, i) + 12)
}

/// The length that section `i` takes in the file.
pub open spec fn section_raw_size(b: Seq<u8>, i: int) -> int {
    le32(b, section_entry_offset(b, i) + 16)
}

/// Where the data of section `i` starts in the file.
pub open spec fn section_raw_offset(b: Seq<u8>, i: int) -> int {
    le32(b, section_entry_offset(b, i) + 20)
}

/// Where the data of section `i` ends in the file.
pub open spec fn section_raw_end(b: Seq<u8>, i: int) -> int {
    section_raw_offset(b, i) + section_raw_size(b, i)
}

/// The characteristics flags of section `i`.
pub open spec fn section_characteristics(b: Seq<u8>, i: int) -> int {
    le32(b, section_entry_offset(b, i) + 36)
}

/// Whether the data of section `i`, if it has any in the file, lies behind
/// the headers and inside the file.
pub open spec fn section_in_bounds(b: Seq<u8>, i: int) -> bool {
    section_raw_size(b, i) == 0 || (size_of_headers(b) <= section_raw_offset(b, i)
        && section_raw_offset(b, i) + section_raw_size(b, i) <= b.len())
}

/// Whether the optional header is whole, the section table lies inside the
/// reserved header room, that room inside the file, and every section in bounds.
pub open spec fn headers_complete(b: Seq<u8>) -> bool {
    match variant_of(b) {
        Some(variant) => {
            &&& optional_header_size(b) >= variant.fixed_size()
            &&& section_table_end(b) <= size_of_headers(b) <= b.len()
            &&& forall|i: int| 0 <= i < section_count(b) ==> #[trigger] section_in_bounds(b, i)
        },
        None => false,
    }
}

/// Whether `b` is an image that sections can be appended to.
pub open spec fn valid_stub(b: Seq<u8>) -> bool {
    has_markers(b) && headers_complete(b)
}

/// Why `b` is refused as a stub, if it is.
pub open spec fn load_failure(b: Seq<u8>) -> Option<Error> {
    if !has_markers(b) {
        Some(Error::InvalidFormat)
    } else if variant_of(b) is None {
        Some(Error::UnsupportedVariant)
    } else if !headers_complete(b) {
        Some(Error::InvalidFormat)
    } else {
        None
    }
}

/// A section name as the table stores it: filled up to eight bytes with zeros.
pub open spec fn padded_name(name: Seq<u8>) -> Seq<u8> {
    name + zeros((8 - name.len()) as nat)
}

/// The forty bytes of the table entry of an appended section. Its virtual
/// address, relocations and line numbers are left zero.
pub open spec fn section_entry_bytes(
    name: Seq<u8>,
    virtual_size: int,
    raw_size: int,
    raw_offset: int,
) -> Seq<u8> {
    padded_name(name) + le32_bytes(virtual_size) + le32_bytes(0) + le32_bytes(raw_size)
        + le32_bytes(raw_offset) + zeros(12) + le32_bytes(READABLE_INITIALIZED_DATA as int)
}

/// Where the data of the next appended section starts: the end of the file,
/// rounded up to the file alignment.
pub open spec fn next_raw_offset(b: Seq<u8>) -> int {
    aligned(b.len() as int, file_alignment(b))
}

/// The length that a payload of `payload_len` bytes takes in the file.
pub open spec fn raw_size_for(b: Seq<u8>, payload_len: int) -> int {
    aligned(payload_len, file_alignment(b))
}

/// Why a section named `name` holding `payload` cannot be appended to `b`, if it cannot.
pub open spec fn append_failure(b: Seq<u8>, name: Seq<u8>, payload: Seq<u8>) -> Option<Error> {
    if name.len() > 8 {
        Some(Error::NameTooLong)
    } else if payload.len() > u32::MAX {
        Some(Error::PayloadTooLarge)
    } else if !is_power_of_two(file_alignment(b) as nat) {
        Some(Error::InvalidAlignment)
    } else if b.len() > u32::MAX || next_raw_offset(b) + raw_size_for(b, payload.len() as int)
        > u32::MAX || size_of_initialized_data(b) + raw_size_for(b, payload.len() as int)
        > u32::MAX {
        Some(Error::PayloadTooLarge)
    } else if section_count(b) >= MAX_SECTIONS || section_table_end(b) + 40 > size_of_headers(b) {
        Some(Error::HeaderSpaceExhausted)
    } else {
        None
    }
}

/// The headers of `b` after a section was appended: one more table entry,
/// the count raised by one, and the raw size added to the size of initialized data.
pub open spec fn with_section_headers(b: Seq<u8>, name: Seq<u8>, payload_len: int) -> Seq<u8> {
    let entry = section_entry_bytes(
        name,
        payload_len,
        raw_size_for(b, payload_len),
        next_raw_offset(b),
    );
    let with_entry = overwritten(b, section_table_end(b), entry);
    let with_count = overwritten(with_entry, nt_offset(b) + 6, le16_bytes(section_count(b) + 1));
    overwritten(
        with_count,
        nt_offset(b) + 32,
        le32_bytes(size_of_initialized_data(b) + raw_size_for(b, payload_len)),
    )
}

/// The image `b` with a section named `name` holding `payload` appended:
/// the updated headers, zeros up to the aligned start, the payload, and
/// zeros up to the aligned end.
pub open spec fn with_section(b: Seq<u8>, name: Seq<u8>, payload: Seq<u8>) -> Seq<u8> {
    with_section_headers(b, name, payload.len() as int) + zeros(
        (next_raw_offset(b) - b.len()) as nat,
    ) + payload + zeros((raw_size_for(b, payload.len() as int) - payload.len()) as nat)
}

/// Where the last section's data ends in the file; with no section at all,
/// where the headers end.
pub open spec fn last_raw_end(b: Seq<u8>) -> int {
    if section_count(b) == 0 {
        size_of_headers(b)
    } else {
        section_raw_offset(b, section_count(b) - 1) + section_raw_size(b, section_count(b) - 1)
    }
}

/// The size of image that finishing records: the end of the last section's
/// data, rounded up to the section alignment.
pub open spec fn finished_size_of_image(b: Seq<u8>) -> int {
    aligned(last_raw_end(b), section_alignment(b))
}

/// Why `b` cannot be finished, if it cannot.
pub open spec fn finalize_failure(b: Seq<u8>) -> Option<Error> {
    if !is_power_of_two(section_alignment(b) as nat) {
        Some(Error::InvalidAlignment)
    } else if last_raw_end(b) > u32::MAX || finished_size_of_image(b) > u32::MAX {
        Some(Error::PayloadTooLarge)
    } else {
        None
    }
}

/// `b` with the four bytes of its checksum set to zero.
pub open spec fn with_checksum_cleared(b: Seq<u8>) -> Seq<u8> {
    overwritten(b, checksum_offset(b), zeros(4))
}

/// Whether the checksum that `b` carries is the checksum of `b` itself,
/// computed with the stored checksum taken as zero.
pub open spec fn checksum_holds(b: Seq<u8>) -> bool {
    stored_checksum(b) == checksum_of(with_checksum_cleared(b))
}

/// `b` with the size of image `v` written into its header.
pub open spec fn with_size_of_image(b: Seq<u8>, v: int) -> Seq<u8> {
    overwritten(b, nt_offset(b) + 80, le32_bytes(v))
}

/// `b` with the size of initialized data `v` written into its header.
pub open spec fn with_size_of_initialized_data(b: Seq<u8>, v: int) -> Seq<u8> {
    overwritten(b, nt_offset(b) + 32, le32_bytes(v))
}

/// `b` with the checksum `v` written into its header.
pub open spec fn with_checksum(b: Seq<u8>, v: int) -> Seq<u8> {
    overwritten(b, checksum_offset(b), le32_bytes(v))
}

/// The finished image: the size of image recorded, then the checksum of the
/// whole, taken with a zero checksum field, stored in that field.
pub open spec fn finalized(b: Seq<u8>) -> Seq<u8> {
    let sized = with_size_of_image(b, finished_size_of_image(b));
    with_checksum(sized, checksum_of(with_checksum_cleared(sized)))
}

/// Whether `a` still has every section of `b`: the same table entries, and
/// the same bytes from the end of the headers to the end of `b`.
pub open spec fn keeps_sections(a: Seq<u8>, b: Seq<u8>) -> bool {
    &&& b.len() <= a.len()
    &&& section_count(b) <= section_count(a)
    &&& size_of_headers(a) == size_of_headers(b)
    &&& file_alignment(a) == file_alignment(b)
    &&& forall|i: int|
        0 <= i < section_count(b) ==> {
            &&& #[trigger] section_name(a, i) == section_name(b, i)
            &&& section_virtual_size(a, i) == section_virtual_size(b, i)
            &&& section_virtual_address(a, i) == section_virtual_address(b, i)
            &&& section_raw_size(a, i) == section_raw_size(b, i)
            &&& section_raw_offset(a, i) == section_raw_offset(b, i)
            &&& section_characteristics(a, i) == section_characteristics(b, i)
        }
    &&& forall|k: int| size_of_headers(b) <= k < b.len() ==> #[trigger] a[k] == b[k]
}

/// Whether section `i` of `b` is an appended section named `name` that
/// holds `payload`: its entry carries the padded name, the payload's exact
/// length and the flags of readable initialized data; its data starts on a
/// multiple of the file alignment behind the headers and lies inside the
/// file; the payload stands at its start, and what follows is zero.
#[verifier::opaque]
pub open spec fn holds_section(b: Seq<u8>, i: int, name: Seq<u8>, payload: Seq<u8>) -> bool {
    let start = section_raw_offset(b, i);
    let raw_size = section_raw_size(b, i);
    &&& section_name(b, i) == padded_name(name)
    &&& section_virtual_size(b, i) == payload.len()
    &&& section_characteristics(b, i) == READABLE_INITIALIZED_DATA
    &&& payload.len() <= raw_size
    &&& raw_size == aligned(payload.len() as int, file_alignment(b))
    &&& start % file_alignment(b) == 0
    &&& size_of_headers(b) <= start
    &&& start + raw_size <= b.len()
    &&& b.subrange(start, start + payload.len()) == payload
    &&& forall|k: int| start + payload.len() <= k < start + raw_size ==> #[trigger] b[k] == 0
}

} // verus!

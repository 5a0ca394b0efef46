//! The image under assembly: a stub executable held in memory, to which
//! sections are appended before it is finished and handed out as bytes.

use crate::align::{align_up, check_power_of_two};
use crate::append::{lemma_append_touches, lemma_append_valid};
use crate::bytes::{
    append_bytes, push_le32, push_zeros, read_le16, read_le32, write_bytes, write_le16,
    write_le32, zeros,
};
use crate::checksum::checksum;
use crate::error::Error;
use crate::finish::{lemma_aggregate_changed, lemma_finalized};
use crate::layout::{
    append_failure, checksum_holds, file_alignment, finalize_failure, finalized,
    finished_size_of_image, has_markers, headers_complete, holds_section, load_failure,
    nt_offset, padded_name, section_alignment, section_characteristics, section_count,
    section_entry_bytes, section_in_bounds, section_name, section_raw_offset, section_raw_size,
    section_table_offset, section_virtual_size, size_of_headers, size_of_image,
    size_of_initialized_data, stored_checksum, valid_stub, variant_of, with_checksum,
    with_checksum_cleared, with_section, with_section_headers, with_size_of_image,
    with_size_of_initialized_data, HeaderVariant, DOS_MAGIC, MAX_SECTIONS, PE32_MAGIC,
    PE32_PLUS_MAGIC, PE_SIGNATURE, READABLE_INITIALIZED_DATA,
};
use vstd::prelude::*;
use vstd::string::*;

verus! {

/// Builds the forty bytes of the table entry of an appended section.
pub fn section_entry(name: &[u8], virtual_size: u32, raw_size: u32, raw_offset: u32) -> (entry:
    Vec<u8>)
    requires
        name@.len() <= 8,
    ensures
        entry@ == section_entry_bytes(
            name@,
            virtual_size as int,
            raw_size as int,
            raw_offset as int,
        ),
{
    let mut entry: Vec<u8> = Vec::new();
    append_bytes(&mut entry, name);
    push_zeros(&mut entry, 8 - name.len());
    assert(entry@ == padded_name(name@));
    push_le32(&mut entry, virtual_size);
    push_le32(&mut entry, 0);
    push_le32(&mut entry, raw_size);
    push_le32(&mut entry, raw_offset);
    push_zeros(&mut entry, 12);
    push_le32(&mut entry, READABLE_INITIALIZED_DATA);
    entry
}

/// The contents of several files laid end to end, in their order.
pub open spec fn joined(parts: Seq<Vec<u8>>) -> Seq<u8>
    decreases parts.len(),
{
    if parts.len() == 0 {
        Seq::empty()
    } else {
        joined(parts.drop_last()) + parts.last()@
    }
}

/// Two pieces joined are the first followed by the second.
pub proof fn lemma_joined_two(parts: Seq<Vec<u8>>)
    requires
        parts.len() == 2,
    ensures
        joined(parts) == parts[0]@ + parts[1]@,
{
    let front = parts.drop_last();
    assert(front.len() == 1);
    assert(front.drop_last().len() == 0);
    assert(joined(front) =~= parts[0]@) by {
        assert(joined(front) == joined(front.drop_last()) + front.last()@);
        assert(joined(front.drop_last()) =~= Seq::<u8>::empty());
    }
}

/// A section made of two files is one section as long as both together:
/// its data starts with the first file's contents, and the second's follow
/// with nothing between them.
pub proof fn law_two_files_joined(b: Seq<u8>, name: Seq<u8>, parts: Seq<Vec<u8>>)
    requires
        valid_stub(b),
        parts.len() == 2,
        append_failure(b, name, joined(parts)) is None,
    ensures
        ({
            let a = with_section(b, name, joined(parts));
            let start = section_raw_offset(a, section_count(b));
            let first = parts[0]@;
            let second = parts[1]@;
            &&& section_count(a) == section_count(b) + 1
            &&& section_virtual_size(a, section_count(b)) == first.len() + second.len()
            &&& start + first.len() + second.len() <= a.len()
            &&& a.subrange(start, start + first.len()) == first
            &&& a.subrange(start + first.len(), start + first.len() + second.len()) == second
        }),
{
    lemma_joined_two(parts);
    let payload = joined(parts);
    let a = with_section(b, name, payload);
    crate::append::lemma_append_fields(b, name, payload);
    crate::append::lemma_append_holds(b, name, payload);
    reveal(holds_section);
    let start = section_raw_offset(a, section_count(b));
    let first = parts[0]@;
    let second = parts[1]@;
    assert(a.subrange(start, start + payload.len()) == first + second);
    assert(a.subrange(start, start + first.len()) =~= a.subrange(
        start,
        start + payload.len(),
    ).subrange(0, first.len() as int));
    assert(a.subrange(start + first.len(), start + first.len() + second.len()) =~= a.subrange(
        start,
        start + payload.len(),
    ).subrange(first.len() as int, payload.len() as int));
    assert((first + second).subrange(0, first.len() as int) =~= first);
    assert((first + second).subrange(first.len() as int, payload.len() as int) =~= second);
}

/// Lays the contents of `parts` end to end.
pub fn join_parts(parts: &Vec<Vec<u8>>) -> (whole: Vec<u8>)
    ensures
        whole@ == joined(parts@),
{
    let mut whole: Vec<u8> = Vec::new();
    let mut i: usize = 0;
    while i < parts.len()
        invariant
            i <= parts@.len(),
            whole@ == joined(parts@.subrange(0, i as int)),
        decreases parts@.len() - i,
    {
        append_bytes(&mut whole, parts[i].as_slice());
        proof {
            let next = parts@.subrange(0, i + 1);
            assert(next.drop_last() =~= parts@.subrange(0, i as int));
            assert(next.last() == parts@[i as int]);
        }
        i = i + 1;
    }
    assert(parts@.subrange(0, i as int) =~= parts@);
    whole
}

/// A stub executable in memory, with the sections appended to it so far.
pub struct UnifiedKernelImage {
    buffer: Vec<u8>,
    variant: HeaderVariant,
    finished: bool,
    output: String,
}

/// One entry of the section table.
#[derive(Clone, Debug, PartialEq, Eq)]
pub struct SectionDescriptor {
    /// The name as the table stores it: eight bytes, filled up with zeros.
    pub name: Vec<u8>,
    /// The exact length of the section's data.
    pub virtual_size: u32,
    /// The length that the section takes in the file.
    pub raw_size: u32,
    /// Where the section's data starts in the file.
    pub raw_offset: u32,
    /// The characteristics flags.
    pub characteristics: u32,
}

impl View for UnifiedKernelImage {
    type V = Seq<u8>;

    /// The bytes of the image as they stand.
    closed spec fn view(&self) -> Seq<u8> {
        self.buffer@
    }
}

impl UnifiedKernelImage {
    /// The layout of the optional header that was found when the stub was loaded.
    pub closed spec fn variant(&self) -> HeaderVariant {
        self.variant
    }

    /// The path that the finished image is meant for.
    pub closed spec fn output_path(&self) -> Seq<char> {
        self.output@
    }

    /// Whether the image was finished and not changed since.
    pub closed spec fn finished(&self) -> bool {
        self.finished
    }

    /// The image's bytes are a valid stub of the recorded layout, and a
    /// finished image carries the size of image and a checksum that holds.
    pub open spec fn wf(&self) -> bool {
        &&& valid_stub(self@)
        &&& variant_of(self@) == Some(self.variant())
        &&& self.finished() ==> checksum_holds(self@) && size_of_image(self@)
            == finished_size_of_image(self@)
    }

    /// Loads a stub from its bytes and remembers where the result is to go.
    ///
    /// Fails with [`Error::InvalidFormat`] when the markers of the format are
    /// missing or the headers do not fit the file, and with
    /// [`Error::UnsupportedVariant`] when the optional header is of neither
    /// known layout. On success the image holds the stub's bytes unchanged.
    pub fn new(stub: Vec<u8>, output: &str) -> (loaded: Result<Self, Error>)
        ensures
            match loaded {
                Ok(image) => {
                    &&& load_failure(stub@) is None
                    &&& image.wf()
                    &&& image@ == stub@
                    &&& !image.finished()
                    &&& image.output_path() == output@
                },
                Err(e) => load_failure(stub@) == Some(e),
            },
    {
        let len: usize = stub.len();
        if len < 64 {
            return Err(Error::InvalidFormat);
        }
        if read_le16(stub.as_slice(), 0) != DOS_MAGIC {
            return Err(Error::InvalidFormat);
        }
        let nt32: u32 = read_le32(stub.as_slice(), 60);
        if nt32 < 64 || nt32 as u64 + 26 > len as u64 {
            return Err(Error::InvalidFormat);
        }
        let nt: usize = nt32 as usize;
        if read_le32(stub.as_slice(), nt) != PE_SIGNATURE {
            return Err(Error::InvalidFormat);
        }
        let magic: u16 = read_le16(stub.as_slice(), nt + 24);
        let variant = if magic == PE32_MAGIC {
            HeaderVariant::Pe32
        } else if magic == PE32_PLUS_MAGIC {
            HeaderVariant::Pe32Plus
        } else {
            return Err(Error::UnsupportedVariant);
        };
        let optional_size: u16 = read_le16(stub.as_slice(), nt + 20);
        if optional_size < variant.fixed_len() {
            return Err(Error::InvalidFormat);
        }
        let table: u64 = nt32 as u64 + 24 + optional_size as u64;
        if table > len as u64 {
            return Err(Error::InvalidFormat);
        }
        let count: u16 = read_le16(stub.as_slice(), nt + 6);
        let table_end: u64 = table + 40 * (count as u64);
        let headers: u32 = read_le32(stub.as_slice(), nt + 84);
        if table_end > headers as u64 || headers as u64 > len as u64 {
            return Err(Error::InvalidFormat);
        }
        let table: usize = table as usize;
        let mut i: usize = 0;
        while i < count as usize
            invariant
                len == stub@.len(),
                has_markers(stub@),
                variant_of(stub@) == Some(variant),
                nt == nt_offset(stub@),
                count == section_count(stub@),
                table == section_table_offset(stub@),
                table + 40 * count <= headers <= len,
                headers == crate::layout::size_of_headers(stub@),
                i <= count,
                forall|j: int| 0 <= j < i ==> #[trigger] section_in_bounds(stub@, j),
            decreases count - i,
        {
            let entry: usize = table + 40 * i;
            let raw_size: u32 = read_le32(stub.as_slice(), entry + 16);
            let raw_offset: u32 = read_le32(stub.as_slice(), entry + 20);
            if raw_size != 0 && (raw_offset < headers || raw_offset as u64 + raw_size as u64
                > len as u64) {
                assert(!section_in_bounds(stub@, i as int));
                return Err(Error::InvalidFormat);
            }
            assert(section_in_bounds(stub@, i as int));
            i = i + 1;
        }
        assert(headers_complete(stub@));
        Ok(UnifiedKernelImage { buffer: stub, variant, finished: false, output: output.to_owned() })
    }

    /// Appends a section named `name` that holds `data`.
    ///
    /// The section's data starts at the end of the file rounded up to the
    /// file alignment and takes the payload's length rounded up likewise;
    /// what the payload does not fill is zero. The section is marked as
    /// readable initialized data, its virtual address is left zero, and its
    /// raw size is added to the size of initialized data at once.
    ///
    /// Fails, leaving the image as it was, with
    /// [`Error::NameTooLong`] for a name of more than eight bytes,
    /// [`Error::PayloadTooLarge`] when a length or an offset leaves 32 bits,
    /// [`Error::InvalidAlignment`] when the file alignment is no power of two, and
    /// [`Error::HeaderSpaceExhausted`] when the reserved header room cannot
    /// take another table entry.
    pub fn add_section_buf(&mut self, name: &str, data: &[u8]) -> (added: Result<(), Error>)
        requires
            old(self).wf(),
        ensures
            final(self).wf(),
            final(self).variant() == old(self).variant(),
            final(self).output_path() == old(self).output_path(),
            match added {
                Ok(()) => {
                    &&& append_failure(old(self)@, name.spec_bytes(), data@) is None
                    &&& final(self)@ == with_section(old(self)@, name.spec_bytes(), data@)
                    &&& !final(self).finished()
                },
                Err(e) => {
                    &&& append_failure(old(self)@, name.spec_bytes(), data@) == Some(e)
                    &&& final(self)@ == old(self)@
                    &&& final(self).finished() == old(self).finished()
                },
            },
    {
        let name_bytes = name.as_bytes();
        if name_bytes.len() > 8 {
            return Err(Error::NameTooLong);
        }
        if data.len() as u64 > 0xFFFF_FFFF {
            return Err(Error::PayloadTooLarge);
        }
        let virtual_size: u32 = data.len() as u32;
        let nt: usize = read_le32(self.buffer.as_slice(), 60) as usize;
        let alignment: u32 = read_le32(self.buffer.as_slice(), nt + 60);
        let raw_size: u64 = match align_up(virtual_size, alignment) {
            Ok(size) => size,
            Err(e) => {
                return Err(e);
            },
        };
        let len: usize = self.buffer.len();
        if len as u64 > 0xFFFF_FFFF {
            return Err(Error::PayloadTooLarge);
        }
        let raw_offset: u64 = match align_up(len as u32, alignment) {
            Ok(offset) => offset,
            Err(e) => {
                return Err(e);
            },
        };
        let initialized: u32 = read_le32(self.buffer.as_slice(), nt + 32);
        if raw_offset + raw_size > 0xFFFF_FFFF || initialized as u64 + raw_size > 0xFFFF_FFFF {
            return Err(Error::PayloadTooLarge);
        }
        let count: u16 = read_le16(self.buffer.as_slice(), nt + 6);
        let optional_size: u16 = read_le16(self.buffer.as_slice(), nt + 20);
        let table_end: usize = nt + 24 + optional_size as usize + 40 * (count as usize);
        let headers: u32 = read_le32(self.buffer.as_slice(), nt + 84);
        if count >= MAX_SECTIONS || table_end as u64 + 40 > headers as u64 {
            return Err(Error::HeaderSpaceExhausted);
        }
        proof {
            lemma_append_touches(self@, name.spec_bytes(), data@);
            lemma_append_valid(self@, name.spec_bytes(), data@);
        }
        let entry = section_entry(name_bytes, virtual_size, raw_size as u32, raw_offset as u32);
        self.finished = false;
        write_bytes(&mut self.buffer, table_end, entry.as_slice());
        write_le16(&mut self.buffer, nt + 6, count + 1);
        write_le32(&mut self.buffer, nt + 32, initialized + raw_size as u32);
        assert(self.buffer@ == with_section_headers(
            old(self)@,
            name.spec_bytes(),
            data@.len() as int,
        ));
        push_zeros(&mut self.buffer, raw_offset as usize - len);
        append_bytes(&mut self.buffer, data);
        push_zeros(&mut self.buffer, raw_size as usize - data.len());
        Ok(())
    }

    /// Appends a section named `name` that holds the contents of `parts`
    /// laid end to end, with nothing between them.
    ///
    /// It succeeds and fails as [`UnifiedKernelImage::add_section_buf`] does
    /// on the joined contents.
    pub fn add_section_paths(&mut self, name: &str, parts: &Vec<Vec<u8>>) -> (added: Result<
        (),
        Error,
    >)
        requires
            old(self).wf(),
        ensures
            final(self).wf(),
            final(self).variant() == old(self).variant(),
            final(self).output_path() == old(self).output_path(),
            match added {
                Ok(()) => {
                    &&& append_failure(old(self)@, name.spec_bytes(), joined(parts@)) is None
                    &&& final(self)@ == with_section(
                        old(self)@,
                        name.spec_bytes(),
                        joined(parts@),
                    )
                    &&& !final(self).finished()
                },
                Err(e) => {
                    &&& append_failure(old(self)@, name.spec_bytes(), joined(parts@)) == Some(e)
                    &&& final(self)@ == old(self)@
                    &&& final(self).finished() == old(self).finished()
                },
            },
    {
        let whole = join_parts(parts);
        self.add_section_buf(name, whole.as_slice())
    }

    /// The size of image that finishing would record: the end of the last
    /// section's data rounded up to the section alignment.
    ///
    /// Fails with [`Error::InvalidAlignment`] when the section alignment is
    /// no power of two, and with [`Error::PayloadTooLarge`] when the size
    /// leaves 32 bits.
    pub fn planned_size_of_image(&self) -> (planned: Result<u32, Error>)
        requires
            self.wf(),
        ensures
            match planned {
                Ok(size) => finalize_failure(self@) is None && size == finished_size_of_image(
                    self@,
                ),
                Err(e) => finalize_failure(self@) == Some(e),
            },
    {
        let nt: usize = read_le32(self.buffer.as_slice(), 60) as usize;
        let alignment: u32 = read_le32(self.buffer.as_slice(), nt + 56);
        if !check_power_of_two(alignment) {
            return Err(Error::InvalidAlignment);
        }
        let count: u16 = read_le16(self.buffer.as_slice(), nt + 6);
        let end: u64 = if count == 0 {
            read_le32(self.buffer.as_slice(), nt + 84) as u64
        } else {
            let optional_size: u16 = read_le16(self.buffer.as_slice(), nt + 20);
            let entry: usize = nt + 24 + optional_size as usize + 40 * (count as usize - 1);
            assert(entry == crate::layout::section_entry_offset(self@, count - 1));
            let raw_size: u32 = read_le32(self.buffer.as_slice(), entry + 16);
            let raw_offset: u32 = read_le32(self.buffer.as_slice(), entry + 20);
            raw_offset as u64 + raw_size as u64
        };
        if end > 0xFFFF_FFFF {
            return Err(Error::PayloadTooLarge);
        }
        let size: u64 = match align_up(end as u32, alignment) {
            Ok(size) => size,
            Err(e) => {
                return Err(e);
            },
        };
        if size > 0xFFFF_FFFF {
            return Err(Error::PayloadTooLarge);
        }
        Ok(size as u32)
    }

    /// Records the size of image and the checksum.
    ///
    /// The size of image becomes the end of the last section's data rounded
    /// up to the section alignment; the checksum is computed over the whole
    /// image with its own four bytes taken as zero, and stored.
    ///
    /// Fails, leaving the image as it was, with [`Error::InvalidAlignment`]
    /// when the section alignment is no power of two, and with
    /// [`Error::PayloadTooLarge`] when the size of image leaves 32 bits.
    pub fn finalize(&mut self) -> (done: Result<(), Error>)
        requires
            old(self).wf(),
        ensures
            final(self).wf(),
            final(self).variant() == old(self).variant(),
            final(self).output_path() == old(self).output_path(),
            match done {
                Ok(()) => {
                    &&& finalize_failure(old(self)@) is None
                    &&& final(self)@ == finalized(old(self)@)
                    &&& final(self).finished()
                },
                Err(e) => {
                    &&& finalize_failure(old(self)@) == Some(e)
                    &&& final(self)@ == old(self)@
                    &&& final(self).finished() == old(self).finished()
                },
            },
    {
        let size: u32 = match self.planned_size_of_image() {
            Ok(size) => size,
            Err(e) => {
                return Err(e);
            },
        };
        let nt: usize = read_le32(self.buffer.as_slice(), 60) as usize;
        let ghost before = self.buffer@;
        let ghost sized = with_size_of_image(before, size as int);
        let ghost cleared = with_checksum_cleared(sized);
        proof {
            assert(nt_offset(sized) == nt) by {
                lemma_aggregate_changed(sized, before, 80);
            }
            crate::bytes::lemma_le32_bytes_of_zero();
        }
        write_le32(&mut self.buffer, nt + 80, size);
        assert(self.buffer@ == sized);
        write_le32(&mut self.buffer, nt + 88, 0);
        assert(self.buffer@ == cleared);
        let sum: u32 = checksum(self.buffer.as_slice());
        write_le32(&mut self.buffer, nt + 88, sum);
        proof {
            crate::bytes::lemma_overwritten_twice(
                sized,
                nt + 88,
                zeros(4),
                crate::bytes::le32_bytes(sum as int),
            );
            assert(self.buffer@ == finalized(before));
            lemma_finalized(before);
        }
        self.finished = true;
        Ok(())
    }

    /// The bytes of the finished image, as they stand.
    pub fn serialize(&self) -> (bytes: Vec<u8>)
        requires
            self.wf(),
            self.finished(),
        ensures
            bytes@ == self@,
            checksum_holds(bytes@),
    {
        let bytes = self.buffer.clone();
        assert(bytes@ =~= self.buffer@);
        bytes
    }

    /// Finishes the image and hands out its bytes, to be written to the output path.
    pub fn output(&mut self) -> (bytes: Result<Vec<u8>, Error>)
        requires
            old(self).wf(),
        ensures
            final(self).wf(),
            final(self).variant() == old(self).variant(),
            final(self).output_path() == old(self).output_path(),
            match bytes {
                Ok(bytes) => {
                    &&& finalize_failure(old(self)@) is None
                    &&& bytes@ == finalized(old(self)@)
                    &&& checksum_holds(bytes@)
                    &&& final(self)@ == bytes@
                    &&& final(self).finished()
                },
                Err(e) => {
                    &&& finalize_failure(old(self)@) == Some(e)
                    &&& final(self)@ == old(self)@
                    &&& final(self).finished() == old(self).finished()
                },
            },
    {
        match self.finalize() {
            Ok(()) => Ok(self.serialize()),
            Err(e) => Err(e),
        }
    }

    /// The layout of the optional header.
    pub fn header_variant(&self) -> (variant: HeaderVariant)
        ensures
            variant == self.variant(),
    {
        self.variant
    }

    /// The path that the finished image is meant for.
    pub fn output_file(&self) -> (path: &str)
        ensures
            path@ == self.output_path(),
    {
        self.output.as_str()
    }

    /// Whether the image was finished and not changed since.
    pub fn is_finalized(&self) -> (yes: bool)
        ensures
            yes == self.finished(),
    {
        self.finished
    }

    /// The number of sections in the table.
    pub fn section_count(&self) -> (count: u16)
        requires
            self.wf(),
        ensures
            count == section_count(self@),
    {
        let nt: usize = read_le32(self.buffer.as_slice(), 60) as usize;
        read_le16(self.buffer.as_slice(), nt + 6)
    }

    /// The granularity of raw file offsets.
    pub fn file_alignment(&self) -> (alignment: u32)
        requires
            self.wf(),
        ensures
            alignment == file_alignment(self@),
    {
        let nt: usize = read_le32(self.buffer.as_slice(), 60) as usize;
        read_le32(self.buffer.as_slice(), nt + 60)
    }

    /// The granularity of virtual addresses.
    pub fn section_alignment(&self) -> (alignment: u32)
        requires
            self.wf(),
        ensures
            alignment == section_alignment(self@),
    {
        let nt: usize = read_le32(self.buffer.as_slice(), 60) as usize;
        read_le32(self.buffer.as_slice(), nt + 56)
    }

    /// Where the raw data ends: the length of the image in the file.
    pub fn end_of_raw_data(&self) -> (end: usize)
        ensures
            end == self@.len(),
    {
        self.buffer.len()
    }

    /// The room reserved for the headers.
    pub fn size_of_headers(&self) -> (size: u32)
        requires
            self.wf(),
        ensures
            size == size_of_headers(self@),
    {
        let nt: usize = read_le32(self.buffer.as_slice(), 60) as usize;
        read_le32(self.buffer.as_slice(), nt + 84)
    }

    /// The aggregate size of initialized data.
    pub fn size_of_initialized_data(&self) -> (size: u32)
        requires
            self.wf(),
        ensures
            size == size_of_initialized_data(self@),
    {
        let nt: usize = read_le32(self.buffer.as_slice(), 60) as usize;
        read_le32(self.buffer.as_slice(), nt + 32)
    }

    /// The aggregate size of image.
    pub fn size_of_image(&self) -> (size: u32)
        requires
            self.wf(),
        ensures
            size == size_of_image(self@),
    {
        let nt: usize = read_le32(self.buffer.as_slice(), 60) as usize;
        read_le32(self.buffer.as_slice(), nt + 80)
    }

    /// The checksum that the image carries.
    pub fn checksum(&self) -> (sum: u32)
        requires
            self.wf(),
        ensures
            sum == stored_checksum(self@),
    {
        let nt: usize = read_le32(self.buffer.as_slice(), 60) as usize;
        read_le32(self.buffer.as_slice(), nt + 88)
    }

    /// Stores `size` as the size of initialized data; the image is no longer finished.
    pub fn set_size_of_initialized_data(&mut self, size: u32)
        requires
            old(self).wf(),
        ensures
            final(self).wf(),
            final(self).variant() == old(self).variant(),
            final(self).output_path() == old(self).output_path(),
            !final(self).finished(),
            final(self)@ == with_size_of_initialized_data(old(self)@, size as int),
            size_of_initialized_data(final(self)@) == size,
    {
        let nt: usize = read_le32(self.buffer.as_slice(), 60) as usize;
        proof {
            lemma_aggregate_changed(
                with_size_of_initialized_data(self@, size as int),
                self@,
                32,
            );
            crate::bytes::lemma_le32_written(self@, nt + 32, size as int);
        }
        self.finished = false;
        write_le32(&mut self.buffer, nt + 32, size);
    }

    /// Stores `size` as the size of image; the image is no longer finished.
    pub fn set_size_of_image(&mut self, size: u32)
        requires
            old(self).wf(),
        ensures
            final(self).wf(),
            final(self).variant() == old(self).variant(),
            final(self).output_path() == old(self).output_path(),
            !final(self).finished(),
            final(self)@ == with_size_of_image(old(self)@, size as int),
            size_of_image(final(self)@) == size,
    {
        let nt: usize = read_le32(self.buffer.as_slice(), 60) as usize;
        proof {
            lemma_aggregate_changed(with_size_of_image(self@, size as int), self@, 80);
            crate::bytes::lemma_le32_written(self@, nt + 80, size as int);
        }
        self.finished = false;
        write_le32(&mut self.buffer, nt + 80, size);
    }

    /// Stores `sum` as the checksum; the image is no longer finished.
    pub fn set_checksum(&mut self, sum: u32)
        requires
            old(self).wf(),
        ensures
            final(self).wf(),
            final(self).variant() == old(self).variant(),
            final(self).output_path() == old(self).output_path(),
            !final(self).finished(),
            final(self)@ == with_checksum(old(self)@, sum as int),
            stored_checksum(final(self)@) == sum,
    {
        let nt: usize = read_le32(self.buffer.as_slice(), 60) as usize;
        proof {
            lemma_aggregate_changed(with_checksum(self@, sum as int), self@, 88);
            crate::bytes::lemma_le32_written(self@, nt + 88, sum as int);
        }
        self.finished = false;
        write_le32(&mut self.buffer, nt + 88, sum);
    }

    /// The `index`-th entry of the section table, if there is one.
    pub fn section(&self, index: usize) -> (found: Option<SectionDescriptor>)
        requires
            self.wf(),
        ensures
            found is Some <==> index < section_count(self@),
            match found {
                Some(d) => {
                    &&& d.name@ == section_name(self@, index as int)
                    &&& d.virtual_size == section_virtual_size(self@, index as int)
                    &&& d.raw_size == section_raw_size(self@, index as int)
                    &&& d.raw_offset == section_raw_offset(self@, index as int)
                    &&& d.characteristics == section_characteristics(self@, index as int)
                },
                None => true,
            },
    {
        let nt: usize = read_le32(self.buffer.as_slice(), 60) as usize;
        let count: u16 = read_le16(self.buffer.as_slice(), nt + 6);
        if index >= count as usize {
            return None;
        }
        let optional_size: u16 = read_le16(self.buffer.as_slice(), nt + 20);
        let entry: usize = nt + 24 + optional_size as usize + 40 * index;
        assert(entry == crate::layout::section_entry_offset(self@, index as int));
        let mut name: Vec<u8> = Vec::new();
        let mut i: usize = 0;
        let len: usize = self.buffer.len();
        while i < 8
            invariant
                i <= 8,
                entry + 40 <= len,
                len == self.buffer@.len(),
                name@ == self.buffer@.subrange(entry as int, entry + i),
            decreases 8 - i,
        {
            name.push(self.buffer[entry + i]);
            i = i + 1;
            assert(name@ =~= self.buffer@.subrange(entry as int, entry + i));
        }
        Some(
            SectionDescriptor {
                name,
                virtual_size: read_le32(self.buffer.as_slice(), entry + 8),
                raw_size: read_le32(self.buffer.as_slice(), entry + 16),
                raw_offset: read_le32(self.buffer.as_slice(), entry + 20),
                characteristics: read_le32(self.buffer.as_slice(), entry + 36),
            },
        )
    }
}

} // verus!

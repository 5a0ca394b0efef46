//! Little-endian integers inside a byte buffer, and overwriting in place.

use vstd::prelude::*;

verus! {

/// `n` zero bytes.
pub open spec fn zeros(n: nat) -> Seq<u8> {
    Seq::new(n, |i: int| 0u8)
}

/// The 16-bit little-endian integer stored at `at`.
pub open spec fn le16(b: Seq<u8>, at: int) -> int {
    b[at] as int + 256 * (b[at + 1] as int)
}

/// The 32-bit little-endian integer stored at `at`.
pub open spec fn le32(b: Seq<u8>, at: int) -> int {
    b[at] as int + 256 * (b[at + 1] as int) + 65536 * (b[at + 2] as int) + 16777216 * (b[at
        + 3] as int)
}

/// The two bytes that store `v` in little-endian order.
pub open spec fn le16_bytes(v: int) -> Seq<u8> {
    seq![(v % 256) as u8, ((v / 256) % 256) as u8]
}

/// The four bytes that store `v` in little-endian order.
pub open spec fn le32_bytes(v: int) -> Seq<u8> {
    seq![
        (v % 256) as u8,
        ((v / 256) % 256) as u8,
        ((v / 65536) % 256) as u8,
        ((v / 16777216) % 256) as u8,
    ]
}

/// `b` with the bytes from `at` on replaced by `data`; the length stays.
pub open spec fn overwritten(b: Seq<u8>, at: int, data: Seq<u8>) -> Seq<u8> {
    Seq::new(
        b.len(),
        |i: int|
            if at <= i < at + data.len() {
                data[i - at]
            } else {
                b[i]
            },
    )
}

/// Reading back a 16-bit integer that was encoded gives the integer.
pub proof fn lemma_le16_of_bytes(v: int)
    requires
        0 <= v < 0x1_0000,
    ensures
        le16_bytes(v).len() == 2,
        le16(le16_bytes(v), 0) == v,
{
}

/// Reading back a 32-bit integer that was encoded gives the integer.
pub proof fn lemma_le32_of_bytes(v: int)
    requires
        0 <= v < 0x1_0000_0000,
    ensures
        le32_bytes(v).len() == 4,
        le32(le32_bytes(v), 0) == v,
{
}

/// A 32-bit integer written into a buffer is read back from the same place.
pub proof fn lemma_le32_written(b: Seq<u8>, at: int, v: int)
    requires
        0 <= at,
        at + 4 <= b.len(),
        0 <= v < 0x1_0000_0000,
    ensures
        le32(overwritten(b, at, le32_bytes(v)), at) == v,
{
    lemma_le32_of_bytes(v);
}

/// Writing twice at one place, with pieces of one length, leaves what was written last.
pub proof fn lemma_overwritten_twice(b: Seq<u8>, at: int, first: Seq<u8>, second: Seq<u8>)
    requires
        first.len() == second.len(),
    ensures
        overwritten(overwritten(b, at, first), at, second) == overwritten(b, at, second),
{
    assert(overwritten(overwritten(b, at, first), at, second) =~= overwritten(b, at, second));
}

/// Zero is stored as four zero bytes.
pub proof fn lemma_le32_bytes_of_zero()
    ensures
        le32_bytes(0) == zeros(4),
{
    assert(le32_bytes(0) =~= zeros(4));
}

/// Reads the 16-bit little-endian integer at `at`.
pub fn read_le16(b: &[u8], at: usize) -> (v: u16)
    requires
        at + 2 <= b@.len(),
    ensures
        v == le16(b@, at as int),
{
    let lo: u16 = b[at] as u16;
    let hi: u16 = b[at + 1] as u16;
    lo + 256 * hi
}

/// Reads the 32-bit little-endian integer at `at`.
pub fn read_le32(b: &[u8], at: usize) -> (v: u32)
    requires
        at + 4 <= b@.len(),
    ensures
        v == le32(b@, at as int),
{
    let b0: u32 = b[at] as u32;
    let b1: u32 = b[at + 1] as u32;
    let b2: u32 = b[at + 2] as u32;
    let b3: u32 = b[at + 3] as u32;
    b0 + 256 * b1 + 65536 * b2 + 16777216 * b3
}

/// Copies `data` over the bytes of `buf` that start at `at`.
pub fn write_bytes(buf: &mut Vec<u8>, at: usize, data: &[u8])
    requires
        at + data@.len() <= old(buf)@.len(),
    ensures
        final(buf)@ == overwritten(old(buf)@, at as int, data@),
{
    let n: usize = data.len();
    let len: usize = buf.len();
    let mut i: usize = 0;
    while i < n
        invariant
            n == data@.len(),
            i <= n,
            at + n <= len,
            len == buf@.len(),
            buf@ == overwritten(old(buf)@, at as int, data@.subrange(0, i as int)),
        decreases n - i,
    {
        buf.set(at + i, data[i]);
        i = i + 1;
        assert(buf@ =~= overwritten(old(buf)@, at as int, data@.subrange(0, i as int)));
    }
    assert(data@.subrange(0, n as int) =~= data@);
}

/// Stores `v` at `at` as a 16-bit little-endian integer.
pub fn write_le16(buf: &mut Vec<u8>, at: usize, v: u16)
    requires
        at + 2 <= old(buf)@.len(),
    ensures
        final(buf)@ == overwritten(old(buf)@, at as int, le16_bytes(v as int)),
{
    let len: usize = buf.len();
    buf.set(at, (v % 256) as u8);
    buf.set(at + 1, (v / 256) as u8);
    assert(buf@ =~= overwritten(old(buf)@, at as int, le16_bytes(v as int)));
}

/// Stores `v` at `at` as a 32-bit little-endian integer.
pub fn write_le32(buf: &mut Vec<u8>, at: usize, v: u32)
    requires
        at + 4 <= old(buf)@.len(),
    ensures
        final(buf)@ == overwritten(old(buf)@, at as int, le32_bytes(v as int)),
{
    let len: usize = buf.len();
    buf.set(at, (v % 256) as u8);
    buf.set(at + 1, ((v / 256) % 256) as u8);
    buf.set(at + 2, ((v / 65536) % 256) as u8);
    buf.set(at + 3, (v / 16777216) as u8);
    assert(buf@ =~= overwritten(old(buf)@, at as int, le32_bytes(v as int)));
}

/// Lays `v` behind `buf` as a 32-bit little-endian integer.
pub fn push_le32(buf: &mut Vec<u8>, v: u32)
    ensures
        final(buf)@ == old(buf)@ + le32_bytes(v as int),
{
    buf.push((v % 256) as u8);
    buf.push(((v / 256) % 256) as u8);
    buf.push(((v / 65536) % 256) as u8);
    buf.push((v / 16777216) as u8);
    assert(buf@ =~= old(buf)@ + le32_bytes(v as int));
}

/// Lays `n` zero bytes behind `buf`.
pub fn push_zeros(buf: &mut Vec<u8>, n: usize)
    requires
        old(buf)@.len() + n <= usize::MAX,
    ensures
        final(buf)@ == old(buf)@ + zeros(n as nat),
{
    let len: usize = buf.len();
    buf.resize(len + n, 0u8);
    assert(buf@ =~= old(buf)@ + zeros(n as nat));
}

/// Lays a copy of `data` behind `buf`.
pub fn append_bytes(buf: &mut Vec<u8>, data: &[u8])
    ensures
        final(buf)@ == old(buf)@ + data@,
{
    buf.extend_from_slice(data);
    assert(buf@ =~= old(buf)@ + data@);
}

} // verus!

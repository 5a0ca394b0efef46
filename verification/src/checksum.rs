//! The image checksum: a sum of 16-bit words with end-around carry, plus the length.

use vstd::prelude::*;

verus! {

/// The number of 16-bit words in `b`, a trailing single byte counted as one.
pub open spec fn word_count(b: Seq<u8>) -> nat {
    ((b.len() + 1) / 2) as nat
}

/// The `k`-th little-endian word of `b`; a missing high byte counts as zero.
pub open spec fn word(b: Seq<u8>, k: int) -> int {
    if 2 * k + 1 < b.len() {
        b[2 * k] as int + 256 * (b[2 * k + 1] as int)
    } else {
        b[2 * k] as int
    }
}

/// The sum of the first `n` words of `b`.
pub open spec fn word_sum(b: Seq<u8>, n: nat) -> int
    decreases n,
{
    if n == 0 {
        0
    } else {
        word_sum(b, (n - 1) as nat) + word(b, n - 1)
    }
}

/// Adds the part of `x` above 16 bits onto the low 16 bits until nothing is above.
pub open spec fn fold16(x: int) -> int
    decreases x,
{
    if x < 0x1_0000 {
        x
    } else {
        fold16(x % 0x1_0000 + x / 0x1_0000)
    }
}

/// The checksum of `b`: the folded sum of its words plus its length, in 32 bits.
pub open spec fn checksum_of(b: Seq<u8>) -> int {
    (fold16(word_sum(b, word_count(b))) + b.len()) % 0x1_0000_0000
}

/// Folding leaves zero alone and maps every positive sum into `1..=0xFFFF`,
/// keeping its remainder modulo `0xFFFF`.
pub proof fn lemma_fold16_closed_form(x: int)
    requires
        0 <= x,
    ensures
        fold16(x) == if x == 0 {
            0
        } else {
            (x - 1) % 0xFFFF + 1
        },
    decreases x,
{
    if x >= 0x1_0000 {
        let y = x % 0x1_0000 + x / 0x1_0000;
        lemma_fold16_closed_form(y);
    }
}

/// Folding may be done at any time: folding a partial sum before adding more
/// gives the same result as folding once at the end.
pub proof fn lemma_fold16_absorbs(a: int, w: int)
    requires
        0 <= a,
        0 <= w,
    ensures
        fold16(fold16(a) + w) == fold16(a + w),
{
    lemma_fold16_closed_form(a);
    lemma_fold16_closed_form(a + w);
    lemma_fold16_closed_form(fold16(a) + w);
}

/// The sum of words is never negative.
pub proof fn lemma_word_sum_nonnegative(b: Seq<u8>, n: nat)
    ensures
        0 <= word_sum(b, n),
    decreases n,
{
    if n > 0 {
        lemma_word_sum_nonnegative(b, (n - 1) as nat);
    }
}

/// Computes the checksum of `bytes`.
///
/// The caller zeroes the four bytes that will hold the checksum before the call.
pub fn checksum(bytes: &[u8]) -> (sum: u32)
    ensures
        sum == checksum_of(bytes@),
{
    let len: usize = bytes.len();
    let mut acc: u32 = 0;
    let mut i: usize = 0;
    while len - i >= 2
        invariant
            len == bytes@.len(),
            i <= len,
            i % 2 == 0,
            acc <= 0xFFFF,
            acc == fold16(word_sum(bytes@, (i / 2) as nat)),
        decreases len - i,
    {
        let w: u32 = bytes[i] as u32 + 256 * (bytes[i + 1] as u32);
        let s: u32 = acc + w;
        proof {
            lemma_word_sum_nonnegative(bytes@, (i / 2) as nat);
            lemma_fold16_absorbs(word_sum(bytes@, (i / 2) as nat), w as int);
            assert(word(bytes@, (i / 2) as int) == w);
            assert(word_sum(bytes@, (i / 2 + 1) as nat) == word_sum(bytes@, (i / 2) as nat) + w);
            lemma_fold16_closed_form(s as int);
        }
        acc = if s >= 0x1_0000 {
            s - 0xFFFF
        } else {
            s
        };
        i = i + 2;
    }
    if i < len {
        let w: u32 = bytes[i] as u32;
        let s: u32 = acc + w;
        proof {
            lemma_word_sum_nonnegative(bytes@, (i / 2) as nat);
            lemma_fold16_absorbs(word_sum(bytes@, (i / 2) as nat), w as int);
            assert(word(bytes@, (i / 2) as int) == w);
            assert(word_sum(bytes@, (i / 2 + 1) as nat) == word_sum(bytes@, (i / 2) as nat) + w);
            lemma_fold16_closed_form(s as int);
        }
        acc = if s >= 0x1_0000 {
            s - 0xFFFF
        } else {
            s
        };
    }
    let low: u64 = (len as u64) % 0x1_0000_0000;
    ((low + acc as u64) % 0x1_0000_0000) as u32
}

} // verus!

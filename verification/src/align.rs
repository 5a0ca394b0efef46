//! Rounding of sizes and offsets up to an alignment.

use crate::error::Error;
use vstd::prelude::*;

verus! {

/// Whether `n` is one of 1, 2, 4, 8, ...
pub open spec fn is_power_of_two(n: nat) -> bool
    decreases n,
{
    if n == 0 {
        false
    } else if n == 1 {
        true
    } else {
        n % 2 == 0 && is_power_of_two(n / 2)
    }
}

/// `value` rounded up to the next multiple of `alignment`.
pub open spec fn aligned(value: int, alignment: int) -> int {
    if value % alignment == 0 {
        value
    } else {
        value + (alignment - value % alignment)
    }
}

/// `aligned` yields a multiple of the alignment that is not below the value
/// and less than one alignment above it.
pub proof fn lemma_aligned_is_multiple(value: int, alignment: int)
    requires
        0 <= value,
        0 < alignment,
    ensures
        aligned(value, alignment) % alignment == 0,
        value <= aligned(value, alignment) < value + alignment,
{
    let r = aligned(value, alignment);
    assert(r % alignment == 0 && value <= r < value + alignment) by (nonlinear_arith)
        requires
            0 <= value,
            0 < alignment,
            r == if value % alignment == 0 {
                value
            } else {
                value + (alignment - value % alignment)
            },
    ;
}

/// `aligned` is the smallest multiple of the alignment that is not below
/// the value: every multiple `m` that is not below the value is at least `aligned`.
pub proof fn law_aligned_is_least(value: int, alignment: int, m: int)
    requires
        0 <= value,
        0 < alignment,
        value <= m,
        m % alignment == 0,
    ensures
        aligned(value, alignment) <= m,
{
    lemma_aligned_is_multiple(value, alignment);
    let r = aligned(value, alignment);
    assert(r <= m) by (nonlinear_arith)
        requires
            0 < alignment,
            r % alignment == 0,
            m % alignment == 0,
            r < value + alignment,
            value <= m,
    ;
}

/// Decides whether `n` is a power of two.
pub fn check_power_of_two(n: u32) -> (yes: bool)
    ensures
        yes == is_power_of_two(n as nat),
{
    if n == 0 {
        return false;
    }
    let mut m: u32 = n;
    while m % 2 == 0
        invariant
            m > 0,
            is_power_of_two(m as nat) == is_power_of_two(n as nat),
        decreases m,
    {
        m = m / 2;
    }
    m == 1
}

/// Rounds through `exe::align`, which returns the value itself when the
/// boundary divides it and otherwise adds what is missing to the next
/// multiple. It divides by the boundary and adds without a check, so a zero
/// boundary and sums past the type's range are kept out.
#[verifier::external_body]
fn align_with_exe(value: u64, boundary: u64) -> (rounded: u64)
    requires
        boundary != 0,
        value + boundary <= u64::MAX,
    ensures
        rounded == aligned(value as int, boundary as int),
{
    exe::align(value, boundary)
}

/// The smallest multiple of `alignment` that is at least `value`.
///
/// Fails with [`Error::InvalidAlignment`] exactly when `alignment` is zero
/// or not a power of two. The result is returned in 64 bits, where it always
/// fits.
pub fn align_up(value: u32, alignment: u32) -> (rounded: Result<u64, Error>)
    ensures
        is_power_of_two(alignment as nat) ==> rounded == Ok::<u64, Error>(
            aligned(value as int, alignment as int) as u64,
        ),
        is_power_of_two(alignment as nat) ==> aligned(value as int, alignment as int) <= u64::MAX,
        !is_power_of_two(alignment as nat) ==> rounded == Err::<u64, Error>(
            Error::InvalidAlignment,
        ),
{
    if !check_power_of_two(alignment) {
        return Err(Error::InvalidAlignment);
    }
    proof {
        lemma_aligned_is_multiple(value as int, alignment as int);
    }
    Ok(align_with_exe(value as u64, alignment as u64))
}

} // verus!

//! Placeholders in configured paths, and their replacement.

use vstd::prelude::*;
use vstd::string::*;

verus! {

/// A value that may hold placeholders, which a template fills in.
pub trait ParseTemplate<T>: Sized {
    /// This value with its placeholders replaced as `template` says.
    fn parse_template(&self, template: &T) -> Self;
}

/// `text` with every occurrence of `pattern` replaced by `value`, found from
/// left to right and never overlapping. An empty pattern occurs nowhere.
pub open spec fn substituted(text: Seq<char>, pattern: Seq<char>, value: Seq<char>) -> Seq<char>
    decreases text.len(),
{
    if text.len() == 0 {
        text
    } else if pattern.len() > 0 && pattern.is_prefix_of(text) {
        value + substituted(text.skip(pattern.len() as int), pattern, value)
    } else {
        seq![text[0]] + substituted(text.skip(1), pattern, value)
    }
}

/// Whether `pattern` stands in `text` at the place `at`.
pub fn occurs_at(text: &str, at: usize, pattern: &str) -> (yes: bool)
    requires
        at <= text@.len(),
    ensures
        yes == pattern@.is_prefix_of(text@.skip(at as int)),
{
    let n: usize = text.unicode_len();
    let m: usize = pattern.unicode_len();
    if n - at < m {
        return false;
    }
    let mut j: usize = 0;
    while j < m
        invariant
            n == text@.len(),
            m == pattern@.len(),
            at + m <= n,
            j <= m,
            forall|k: int| 0 <= k < j ==> pattern@[k] == text@[at + k],
        decreases m - j,
    {
        if pattern.get_char(j) != text.get_char(at + j) {
            assert(text@.skip(at as int)[j as int] == text@[at + j]);
            assert(!(pattern@ =~= text@.skip(at as int).subrange(0, pattern@.len() as int)));
            return false;
        }
        j = j + 1;
    }
    assert(pattern@ =~= text@.skip(at as int).subrange(0, pattern@.len() as int));
    true
}

/// Replaces every occurrence of `pattern` in `text` by `value`.
pub fn substitute(text: &str, pattern: &str, value: &str) -> (out: String)
    ensures
        out@ == substituted(text@, pattern@, value@),
{
    let n: usize = text.unicode_len();
    let m: usize = pattern.unicode_len();
    let mut out = String::new();
    let mut i: usize = 0;
    proof {
        assert(text@.skip(0) =~= text@);
        assert(out@ + substituted(text@, pattern@, value@) =~= substituted(
            text@,
            pattern@,
            value@,
        ));
    }
    while i < n
        invariant
            n == text@.len(),
            m == pattern@.len(),
            i <= n,
            out@ + substituted(text@.skip(i as int), pattern@, value@) == substituted(
                text@,
                pattern@,
                value@,
            ),
        decreases n - i,
    {
        let ghost rest = text@.skip(i as int);
        if m > 0 && occurs_at(text, i, pattern) {
            proof {
                assert(rest.skip(m as int) =~= text@.skip(i + m));
                assert(out@ + value@ + substituted(rest.skip(m as int), pattern@, value@) =~= out@
                    + (value@ + substituted(rest.skip(m as int), pattern@, value@)));
            }
            out.append(value);
            i = i + m;
        } else {
            proof {
                assert(rest.skip(1) =~= text@.skip(i + 1));
                assert(text@.subrange(i as int, i + 1) =~= seq![rest[0]]);
                assert(out@ + seq![rest[0]] + substituted(rest.skip(1), pattern@, value@) =~= out@
                    + (seq![rest[0]] + substituted(rest.skip(1), pattern@, value@)));
            }
            out.append(text.substring_char(i, i + 1));
            i = i + 1;
        }
    }
    proof {
        assert(text@.skip(n as int) =~= Seq::<char>::empty());
        assert(out@ + Seq::<char>::empty() =~= out@);
    }
    out
}

} // verus!

//! Telling the installed kernels by the names of their image files.

use crate::template::occurs_at;
use vstd::prelude::*;
use vstd::string::*;

verus! {

/// Whether `pattern` stands in `text` at the place `at`.
pub open spec fn occurs(text: Seq<char>, pattern: Seq<char>, at: int) -> bool {
    0 <= at <= text.len() && pattern.is_prefix_of(text.skip(at))
}

/// Whether `at` is the first place in `text` where `pattern` stands.
pub open spec fn is_first_occurrence(text: Seq<char>, pattern: Seq<char>, at: int) -> bool {
    occurs(text, pattern, at) && forall|j: int| 0 <= j < at ==> !#[trigger] occurs(text, pattern, j)
}

/// The first place in `text` where `pattern` stands, if it stands anywhere.
pub fn find_first(text: &str, pattern: &str) -> (found: Option<usize>)
    ensures
        match found {
            Some(at) => is_first_occurrence(text@, pattern@, at as int),
            None => forall|j: int| !#[trigger] occurs(text@, pattern@, j),
        },
{
    let n: usize = text.unicode_len();
    let mut i: usize = 0;
    loop
        invariant
            n == text@.len(),
            i <= n,
            forall|j: int| 0 <= j < i ==> !#[trigger] occurs(text@, pattern@, j),
        decreases n - i,
    {
        if occurs_at(text, i, pattern) {
            return Some(i);
        }
        if i == n {
            return None;
        }
        i = i + 1;
    }
}

/// The name of the kernel whose image file is called `file_name`: what
/// follows the first `vmlinuz-` in it. A file whose name does not hold
/// `vmlinuz-` is no kernel image.
pub fn kernel_name(file_name: &str) -> (name: Option<String>)
    ensures
        match name {
            Some(name) => exists|at: int|
                #![trigger occurs(file_name@, "vmlinuz-"@, at)]
                is_first_occurrence(file_name@, "vmlinuz-"@, at) && name@ == file_name@.skip(
                    at + "vmlinuz-"@.len(),
                ),
            None => forall|j: int| !#[trigger] occurs(file_name@, "vmlinuz-"@, j),
        },
{
    let marker = "vmlinuz-";
    match find_first(file_name, marker) {
        Some(at) => {
            let n: usize = file_name.unicode_len();
            let m: usize = marker.unicode_len();
            assert(at + m <= n) by {
                assert(marker@.is_prefix_of(file_name@.skip(at as int)));
            }
            let name = file_name.substring_char(at + m, n).to_owned();
            assert(name@ =~= file_name@.skip(at + m));
            assert(occurs(file_name@, marker@, at as int));
            Some(name)
        },
        None => None,
    }
}

} // verus!

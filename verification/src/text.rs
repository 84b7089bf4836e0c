//! Small verified text helpers shared across the crate.

use vstd::prelude::*;

verus! {

/// Whether `needle` occurs contiguously inside `haystack`.
pub open spec fn contains_seq(haystack: Seq<char>, needle: Seq<char>) -> bool {
    exists|i: int|
        0 <= i && i + needle.len() <= haystack.len() && #[trigger] haystack.subrange(
            i,
            i + needle.len(),
        ) == needle
}

/// Whether two strings hold the same characters.
pub fn str_eq(a: &str, b: &str) -> (r: bool)
    ensures
        r == (a@ == b@),
{
    let a_len = a.unicode_len();
    let b_len = b.unicode_len();
    if a_len != b_len {
        return false;
    }
    for j in 0..a_len
        invariant
            a_len == a@.len(),
            a@.len() == b@.len(),
            forall|m: int| 0 <= m < j ==> a@[m] == b@[m],
    {
        if a.get_char(j) != b.get_char(j) {
            return false;
        }
    }
    proof {
        assert(a@ =~= b@);
    }
    true
}

/// Whether the first string contains the second, contiguously.
pub fn str_contains(haystack: &str, needle: &str) -> (r: bool)
    ensures
        r == contains_seq(haystack@, needle@),
{
    let h_len = haystack.unicode_len();
    let n_len = needle.unicode_len();
    if n_len > h_len {
        proof {
            if contains_seq(haystack@, needle@) {
                let i = choose|i: int|
                    0 <= i && i + needle@.len() <= haystack@.len() && #[trigger] haystack@.subrange(
                        i,
                        i + needle@.len(),
                    ) == needle@;
            }
        }
        return false;
    }
    if n_len == 0 {
        proof {
            assert(haystack@.subrange(0, 0 + needle@.len() as int) =~= needle@);
        }
        return true;
    }
    for start in 0..(h_len - n_len) + 1
        invariant
            h_len == haystack@.len(),
            n_len == needle@.len(),
            n_len <= h_len,
            forall|i: int|
                0 <= i < start ==> #[trigger] haystack@.subrange(i, i + needle@.len())
                    != needle@,
    {
        if match_at(haystack, needle, start) {
            return true;
        }
    }
    proof {
        if contains_seq(haystack@, needle@) {
            let i = choose|i: int|
                0 <= i && i + needle@.len() <= haystack@.len() && #[trigger] haystack@.subrange(
                    i,
                    i + needle@.len(),
                ) == needle@;
        }
    }
    false
}

/// Whether `needle` occurs in `haystack` starting at `start`.
fn match_at(haystack: &str, needle: &str, start: usize) -> (r: bool)
    requires
        start + needle@.len() <= haystack@.len(),
        haystack@.len() <= usize::MAX,
    ensures
        r == (haystack@.subrange(start as int, start + needle@.len()) == needle@),
{
    let n_len = needle.unicode_len();
    for j in 0..n_len
        invariant
            n_len == needle@.len(),
            start + needle@.len() <= haystack@.len(),
            haystack@.len() <= usize::MAX,
            forall|m: int| 0 <= m < j ==> haystack@[start + m] == needle@[m],
    {
        if haystack.get_char(start + j) != needle.get_char(j) {
            proof {
                assert(haystack@.subrange(start as int, start + needle@.len())[j as int]
                    != needle@[j as int]);
            }
            return false;
        }
    }
    proof {
        assert(haystack@.subrange(start as int, start + needle@.len()) =~= needle@);
    }
    true
}

} // verus!

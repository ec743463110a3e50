//! Verified helpers over strings: equality, suffix tests, and splitting at
//! the first occurrence of a separator character. These carry the exact
//! sequence-level contracts that the extractor and the cursor codec build on.

use vstd::prelude::*;

verus! {

/// Whether `s` ends with the suffix `suffix`.
pub open spec fn ends_with(s: Seq<char>, suffix: Seq<char>) -> bool {
    suffix.len() <= s.len() && s.skip(s.len() - suffix.len()) == suffix
}

/// Character-for-character equality of two string slices.
pub fn str_eq(a: &str, b: &str) -> (r: bool)
    ensures
        r == (a@ == b@),
{
    let alen = a.unicode_len();
    let blen = b.unicode_len();
    if alen != blen {
        return false;
    }
    let mut i: usize = 0;
    while i < alen
        invariant
            alen == a@.len(),
            alen == b@.len(),
            i <= alen,
            forall|j: int| 0 <= j < i ==> a@[j] == b@[j],
        decreases alen - i,
    {
        if a.get_char(i) != b.get_char(i) {
            return false;
        }
        i = i + 1;
    }
    proof {
        assert(a@ =~= b@);
    }
    true
}

/// Whether the string slice `s` ends with `suffix`.
pub fn str_ends_with(s: &str, suffix: &str) -> (r: bool)
    ensures
        r == ends_with(s@, suffix@),
{
    let slen = s.unicode_len();
    let tlen = suffix.unicode_len();
    if tlen > slen {
        return false;
    }
    let start = slen - tlen;
    let mut i: usize = 0;
    while i < tlen
        invariant
            slen == s@.len(),
            tlen == suffix@.len(),
            start == slen - tlen,
            i <= tlen,
            forall|j: int| 0 <= j < i ==> s@[start + j] == suffix@[j],
        decreases tlen - i,
    {
        if s.get_char(start + i) != suffix.get_char(i) {
            return false;
        }
        i = i + 1;
    }
    proof {
        assert(s@.skip(start as int) =~= suffix@);
    }
    true
}

/// Whether `s` contains the character `sep`.
pub open spec fn contains_char(s: Seq<char>, sep: char) -> bool {
    exists|i: int| 0 <= i < s.len() && s[i] == sep
}

/// Splits `s` at the first occurrence of `sep`: the part before it and the
/// part after it, neither holding the separator position itself. `None` when
/// `sep` does not occur.
pub fn split_first(s: &str, sep: char) -> (r: Option<(String, String)>)
    ensures
        match r {
            Some(parts) => {
                &&& contains_char(s@, sep)
                &&& exists|i: int|
                    {
                        &&& 0 <= i < s@.len()
                        &&& s@[i] == sep
                        &&& (forall|j: int| 0 <= j < i ==> s@[j] != sep)
                        &&& parts.0@ == s@.subrange(0, i)
                        &&& parts.1@ == s@.subrange(i + 1, s@.len() as int)
                    }
            },
            None => !contains_char(s@, sep),
        },
{
    let len = s.unicode_len();
    let mut i: usize = 0;
    while i < len
        invariant
            len == s@.len(),
            i <= len,
            forall|j: int| 0 <= j < i ==> s@[j] != sep,
        decreases len - i,
    {
        if s.get_char(i) == sep {
            let before = s.substring_char(0, i);
            let after = s.substring_char(i + 1, len);
            return Some((String::from_str(before), String::from_str(after)));
        }
        i = i + 1;
    }
    None
}

} // verus!

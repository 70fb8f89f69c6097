//! Small verified string utilities: equality, prefix and suffix tests, and
//! membership of a name in a directory listing.

use vstd::prelude::*;
use vstd::string::*;

verus! {

/// True when some string in `files` has exactly the characters of `name`.
pub open spec fn contains_str(files: Seq<String>, name: Seq<char>) -> bool {
    exists|i: int| 0 <= i < files.len() && files[i]@ == name
}

/// Character-by-character equality of two string slices.
pub fn str_eq(a: &str, b: &str) -> (r: bool)
    ensures
        r == (a@ == b@),
{
    let a_len = a.unicode_len();
    let b_len = b.unicode_len();
    if a_len != b_len {
        return false;
    }
    let mut i: usize = 0;
    while i < a_len
        invariant
            i <= a_len,
            a_len == a@.len(),
            a@.len() == b@.len(),
            forall|j: int| 0 <= j < i ==> a@[j] == b@[j],
        decreases a_len - i,
    {
        if a.get_char(i) != b.get_char(i) {
            return false;
        }
        i += 1;
    }
    proof {
        assert(a@ =~= b@);
    }
    true
}

/// True exactly when `prefix` is a prefix of `s`.
pub fn has_prefix(s: &str, prefix: &str) -> (r: bool)
    ensures
        r == prefix@.is_prefix_of(s@),
{
    let p_len = prefix.unicode_len();
    let s_len = s.unicode_len();
    if p_len > s_len {
        return false;
    }
    let mut i: usize = 0;
    while i < p_len
        invariant
            i <= p_len,
            p_len == prefix@.len(),
            s_len == s@.len(),
            p_len <= s_len,
            forall|j: int| 0 <= j < i ==> s@[j] == prefix@[j],
        decreases p_len - i,
    {
        if s.get_char(i) != prefix.get_char(i) {
            proof {
                assert(s@.subrange(0, p_len as int)[i as int] == s@[i as int]);
            }
            return false;
        }
        i += 1;
    }
    proof {
        assert(prefix@ =~= s@.subrange(0, p_len as int));
    }
    true
}

/// True exactly when `suffix` is a suffix of `s`.
pub fn has_suffix(s: &str, suffix: &str) -> (r: bool)
    ensures
        r == suffix@.is_suffix_of(s@),
{
    let x_len = suffix.unicode_len();
    let s_len = s.unicode_len();
    if x_len > s_len {
        return false;
    }
    let off = s_len - x_len;
    let mut i: usize = 0;
    while i < x_len
        invariant
            i <= x_len,
            x_len == suffix@.len(),
            s_len == s@.len(),
            off == s_len - x_len,
            forall|j: int| 0 <= j < i ==> s@[off + j] == suffix@[j],
        decreases x_len - i,
    {
        if s.get_char(off + i) != suffix.get_char(i) {
            proof {
                let lo = s@.len() - suffix@.len();
                assert(s@.subrange(lo, s@.len() as int)[i as int] == s@[lo + i]);
            }
            return false;
        }
        i += 1;
    }
    proof {
        assert(suffix@ =~= s@.subrange(s@.len() - suffix@.len(), s@.len() as int));
    }
    true
}

/// True exactly when the listing `files` holds a string equal to `name`.
pub fn contains_name(files: &Vec<String>, name: &str) -> (r: bool)
    ensures
        r == contains_str(files@, name@),
{
    let mut i: usize = 0;
    while i < files.len()
        invariant
            i <= files@.len(),
            forall|j: int| 0 <= j < i ==> files@[j]@ != name@,
        decreases files@.len() - i,
    {
        if str_eq(files[i].as_str(), name) {
            assert(files@[i as int]@ == name@);
            return true;
        }
        i += 1;
    }
    false
}

} // verus!

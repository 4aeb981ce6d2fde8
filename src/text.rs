//! Character-level comparisons on strings.

use vstd::prelude::*;
use vstd::string::*;

verus! {

/// `a` and `b` are the same character once ASCII upper case is folded into
/// lower case on the side of `a`; `b` is expected in canonical lower case.
pub open spec fn char_matches_folded(a: char, b: char) -> bool {
    a == b || ('A' <= a <= 'Z' && (a as u32) + 32 == (b as u32))
}

/// `s` spells `canon` up to the case of ASCII letters in `s`.
pub open spec fn matches_folded(s: Seq<char>, canon: Seq<char>) -> bool {
    &&& s.len() == canon.len()
    &&& forall|i: int| 0 <= i < s.len() ==> char_matches_folded(#[trigger] s[i], canon[i])
}

/// Exact comparison of two string slices by their characters.
pub fn str_equal(a: &str, b: &str) -> (r: bool)
    ensures
        r == (a@ == b@),
{
    let n = a.unicode_len();
    if n != b.unicode_len() {
        return false;
    }
    let mut i: usize = 0;
    while i < n
        invariant
            n == a@.len(),
            n == b@.len(),
            i <= n,
            forall|j: int| 0 <= j < i ==> a@[j] == b@[j],
        decreases n - i,
    {
        if a.get_char(i) != b.get_char(i) {
            return false;
        }
        i = i + 1;
    }
    assert(a@ =~= b@);
    true
}

/// Comparison that ignores the case of ASCII letters in `s`.
pub fn str_matches_folded(s: &str, canon: &str) -> (r: bool)
    ensures
        r == matches_folded(s@, canon@),
{
    let n = s.unicode_len();
    if n != canon.unicode_len() {
        return false;
    }
    let mut i: usize = 0;
    while i < n
        invariant
            n == s@.len(),
            n == canon@.len(),
            i <= n,
            forall|j: int| 0 <= j < i ==> char_matches_folded(s@[j], canon@[j]),
        decreases n - i,
    {
        let a = s.get_char(i);
        let b = canon.get_char(i);
        let same = a == b || ('A' <= a && a <= 'Z' && (a as u32) + 32 == (b as u32));
        if !same {
            return false;
        }
        i = i + 1;
    }
    true
}

/// A fresh `String` holding the characters of `s`.
pub fn owned(s: &str) -> (r: String)
    ensures
        r@ == s@,
{
    String::from_str(s)
}

} // verus!

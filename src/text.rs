//! Case-insensitive matching of ASCII words.

use vstd::prelude::*;
use vstd::string::*;

verus! {

/// The lower-case form of an ASCII letter; any other character is left as it is.
pub open spec fn lower(c: char) -> char {
    if 'A' <= c <= 'Z' {
        ((c as u8) + 32) as char
    } else {
        c
    }
}

/// Whether `s` spells `word` when ASCII letters are compared without regard to case.
pub open spec fn matches_word(s: Seq<char>, word: Seq<char>) -> bool {
    s.len() == word.len() && forall|i: int| 0 <= i < s.len() ==> lower(#[trigger] s[i]) == word[i]
}

/// Returns the lower-case form of `c` if it is an ASCII letter, else `c`.
pub fn to_lower(c: char) -> (r: char)
    ensures
        r == lower(c),
{
    if 'A' <= c && c <= 'Z' {
        ((c as u8) + 32) as char
    } else {
        c
    }
}

/// Returns whether `s` spells the lower-case `word`, ignoring the case of `s`.
pub fn matches_ignore_case(s: &str, word: &str) -> (r: bool)
    ensures
        r == matches_word(s@, word@),
{
    let n = s.unicode_len();
    if n != word.unicode_len() {
        return false;
    }
    let mut i: usize = 0;
    while i < n
        invariant
            n == s@.len(),
            n == word@.len(),
            i <= n,
            forall|j: int| 0 <= j < i ==> lower(#[trigger] s@[j]) == word@[j],
        decreases n - i,
    {
        if to_lower(s.get_char(i)) != word.get_char(i) {
            return false;
        }
        i = i + 1;
    }
    true
}

} // verus!

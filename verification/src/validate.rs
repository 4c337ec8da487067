//! Validation of user-supplied patterns against the base-58 alphabet.
//!
//! The base-58 alphabet leaves out the four visually ambiguous characters
//! `0`, `O`, `I` and `l`; a pattern that contains any of them can never
//! occur in a base-58 rendering and is rejected before a search starts.

use vstd::prelude::*;
use vstd::string::*;

verus! {

/// One of the four characters the base-58 alphabet excludes.
pub open spec fn is_excluded_char(c: char) -> bool {
    c == '0' || c == 'O' || c == 'I' || c == 'l'
}

/// A pattern is valid when none of its characters is excluded.
pub open spec fn pattern_is_valid(s: Seq<char>) -> bool {
    forall|i: int| 0 <= i < s.len() ==> !is_excluded_char(s[i])
}

/// True exactly when the pattern avoids all four excluded characters.
pub fn is_valid_base58_pattern(pattern: &str) -> (r: bool)
    ensures
        r == pattern_is_valid(pattern@),
{
    let len = pattern.unicode_len();
    let mut i: usize = 0;
    while i < len
        invariant
            i <= len,
            len == pattern@.len(),
            forall|j: int| 0 <= j < i ==> !is_excluded_char(pattern@[j]),
        decreases len - i,
    {
        let c = pattern.get_char(i);
        if c == '0' || c == 'O' || c == 'I' || c == 'l' {
            proof {
                assert(is_excluded_char(pattern@[i as int]));
            }
            return false;
        }
        i += 1;
    }
    true
}

/// Accepts a valid pattern; rejects an invalid one with the full list of
/// offending characters, in the order they occur, repetitions kept.
pub fn validate_base58_pattern(pattern: &str) -> (r: Result<(), Vec<char>>)
    ensures
        r is Ok <==> pattern_is_valid(pattern@),
        r matches Err(bad) ==> bad@ == pattern@.filter(|c: char| is_excluded_char(c)),
{
    let len = pattern.unicode_len();
    let mut found: Vec<char> = Vec::new();
    let mut i: usize = 0;
    while i < len
        invariant
            i <= len,
            len == pattern@.len(),
            found@ == pattern@.subrange(0, i as int).filter(|c: char| is_excluded_char(c)),
            (found@.len() == 0) == (forall|j: int|
                0 <= j < i ==> !is_excluded_char(pattern@[j])),
        decreases len - i,
    {
        let c = pattern.get_char(i);
        if c == '0' || c == 'O' || c == 'I' || c == 'l' {
            found.push(c);
            proof {
                assert(is_excluded_char(pattern@[i as int]));
            }
        }
        proof {
            reveal(Seq::filter);
            let sub1 = pattern@.subrange(0, (i + 1) as int);
            assert(sub1.drop_last() =~= pattern@.subrange(0, i as int));
            assert(sub1.last() == pattern@[i as int]);
        }
        i += 1;
    }
    proof {
        assert(pattern@.subrange(0, len as int) =~= pattern@);
    }
    if found.len() == 0 {
        Ok(())
    } else {
        Err(found)
    }
}

/// The 58 characters of the base-58 alphabet, in their conventional order.
pub fn get_valid_base58_chars() -> (r: &'static str)
    ensures
        r@ == "123456789ABCDEFGHJKLMNPQRSTUVWXYZabcdefghijkmnopqrstuvwxyz"@,
{
    "123456789ABCDEFGHJKLMNPQRSTUVWXYZabcdefghijkmnopqrstuvwxyz"
}

} // verus!

//! The pattern-matching predicate: does a candidate identifier satisfy a
//! pattern under a chosen match mode and case policy?
//!
//! When matching case-insensitively, both candidate and pattern are folded
//! to ASCII lower case before comparison; base-58 text is ASCII, so this
//! folding covers every character that can occur in a candidate.

use vstd::prelude::*;
use vstd::string::*;
use crate::VanityGenerator;

verus! {

/// The rule used to test a candidate identifier against a pattern.
#[derive(Debug, Clone)]
pub enum PatternType {
    StartsWith,
    EndsWith,
    Contains,
}

/// ASCII lower-casing of one character; any other character is unchanged.
pub open spec fn lower_char(c: char) -> char {
    if 65 <= c as u32 && c as u32 <= 90 {
        (((c as u32) + 32) as u8) as char
    } else {
        c
    }
}

/// ASCII upper-casing of one character; any other character is unchanged.
pub open spec fn upper_char(c: char) -> char {
    if 97 <= c as u32 && c as u32 <= 122 {
        (((c as u32) - 32) as u8) as char
    } else {
        c
    }
}

/// ASCII lower-casing of a whole string.
pub open spec fn to_lower(s: Seq<char>) -> Seq<char> {
    s.map_values(|c: char| lower_char(c))
}

/// ASCII upper-casing of a whole string.
pub open spec fn to_upper(s: Seq<char>) -> Seq<char> {
    s.map_values(|c: char| upper_char(c))
}

/// The string a comparison actually sees: unchanged when case-sensitive,
/// lower-cased when not.
pub open spec fn norm(s: Seq<char>, case_sensitive: bool) -> Seq<char> {
    if case_sensitive {
        s
    } else {
        to_lower(s)
    }
}

/// `pat` is a prefix of `key`.
pub open spec fn seq_starts_with(key: Seq<char>, pat: Seq<char>) -> bool {
    pat.len() <= key.len() && key.subrange(0, pat.len() as int) == pat
}

/// `pat` is a suffix of `key`.
pub open spec fn seq_ends_with(key: Seq<char>, pat: Seq<char>) -> bool {
    pat.len() <= key.len() && key.subrange(key.len() - pat.len(), key.len() as int) == pat
}

/// `pat` occurs in `key` as a contiguous substring beginning at `i`.
pub open spec fn seq_contains_at(key: Seq<char>, pat: Seq<char>, i: int) -> bool {
    0 <= i && i + pat.len() <= key.len() && key.subrange(i, i + pat.len()) == pat
}

/// `pat` occurs somewhere in `key` as a contiguous substring.
pub open spec fn seq_contains(key: Seq<char>, pat: Seq<char>) -> bool {
    exists|i: int| seq_contains_at(key, pat, i)
}

/// What it means for a candidate identifier to satisfy a pattern under a
/// match mode and case policy.  An empty pattern satisfies every mode.
pub open spec fn spec_matches(
    key: Seq<char>,
    pat: Seq<char>,
    mode: PatternType,
    case_sensitive: bool,
) -> bool {
    match mode {
        PatternType::StartsWith => seq_starts_with(
            norm(key, case_sensitive),
            norm(pat, case_sensitive),
        ),
        PatternType::EndsWith => seq_ends_with(
            norm(key, case_sensitive),
            norm(pat, case_sensitive),
        ),
        PatternType::Contains => seq_contains(
            norm(key, case_sensitive),
            norm(pat, case_sensitive),
        ),
    }
}

/// One character as a comparison sees it.
pub open spec fn norm_char(c: char, case_sensitive: bool) -> char {
    if case_sensitive {
        c
    } else {
        lower_char(c)
    }
}

/// Folds one character the way the chosen case policy demands.
fn fold_char(c: char, case_sensitive: bool) -> (r: char)
    ensures
        r == norm_char(c, case_sensitive),
{
    if case_sensitive {
        c
    } else {
        let u = c as u32;
        if 65 <= u && u <= 90 {
            ((u + 32) as u8) as char
        } else {
            c
        }
    }
}

/// Compares the window of `key` that begins at `offset` against all of
/// `pat`, under the chosen case policy.
fn window_matches(key: &str, pat: &str, offset: usize, case_sensitive: bool) -> (r: bool)
    requires
        offset + pat@.len() <= key@.len(),
        key@.len() <= usize::MAX,
    ensures
        r == (norm(key@, case_sensitive).subrange(
            offset as int,
            offset + pat@.len(),
        ) == norm(pat@, case_sensitive)),
{
    let pat_len = pat.unicode_len();
    let ghost nk = norm(key@, case_sensitive);
    let ghost np = norm(pat@, case_sensitive);
    let mut j: usize = 0;
    while j < pat_len
        invariant
            j <= pat_len,
            pat_len == pat@.len(),
            offset + pat_len <= key@.len(),
            key@.len() <= usize::MAX,
            nk == norm(key@, case_sensitive),
            np == norm(pat@, case_sensitive),
            forall|t: int| 0 <= t < j ==> nk[offset + t] == np[t],
        decreases pat_len - j,
    {
        let kc = fold_char(key.get_char(offset + j), case_sensitive);
        let pc = fold_char(pat.get_char(j), case_sensitive);
        if kc != pc {
            proof {
                let w = nk.subrange(offset as int, offset + pat@.len());
                assert(w[j as int] == nk[offset + j]);
                assert(nk[offset + j] != np[j as int]);
            }
            return false;
        }
        j += 1;
    }
    proof {
        assert(nk.subrange(offset as int, offset + pat@.len()) =~= np);
    }
    true
}

impl VanityGenerator {
    /// Whether a public identifier satisfies the pattern; the instance
    /// method simply defers to the associated function.
    pub fn matches_pattern(
        &self,
        public_key: &str,
        pattern: &str,
        pattern_type: &PatternType,
        case_sensitive: bool,
    ) -> (r: bool)
        ensures
            r == spec_matches(public_key@, pattern@, *pattern_type, case_sensitive),
    {
        Self::matches_pattern_static(public_key, pattern, pattern_type, case_sensitive)
    }

    /// Whether a public identifier satisfies the pattern under the chosen
    /// match mode and case policy.
    pub fn matches_pattern_static(
        public_key: &str,
        pattern: &str,
        pattern_type: &PatternType,
        case_sensitive: bool,
    ) -> (r: bool)
        ensures
            r == spec_matches(public_key@, pattern@, *pattern_type, case_sensitive),
    {
        let key_len = public_key.unicode_len();
        let pat_len = pattern.unicode_len();
        let ghost nk = norm(public_key@, case_sensitive);
        let ghost np = norm(pattern@, case_sensitive);
        if pat_len > key_len {
            proof {
                assert(forall|i: int| !seq_contains_at(nk, np, i));
            }
            return false;
        }
        match *pattern_type {
            PatternType::StartsWith => window_matches(public_key, pattern, 0, case_sensitive),
            PatternType::EndsWith => window_matches(
                public_key,
                pattern,
                key_len - pat_len,
                case_sensitive,
            ),
            PatternType::Contains => {
                if pat_len == 0 {
                    proof {
                        assert(nk.subrange(0, 0) =~= np);
                        assert(seq_contains_at(nk, np, 0));
                    }
                    return true;
                }
                let limit = key_len - pat_len;
                let mut offset: usize = 0;
                while offset <= limit
                    invariant
                        offset <= limit + 1,
                        limit == key_len - pat_len,
                        1 <= pat_len <= key_len,
                        pat_len == pattern@.len(),
                        key_len == public_key@.len(),
                        pattern_type is Contains,
                        nk == norm(public_key@, case_sensitive),
                        np == norm(pattern@, case_sensitive),
                        forall|i: int| 0 <= i < offset ==> !seq_contains_at(nk, np, i),
                    decreases limit + 1 - offset,
                {
                    if window_matches(public_key, pattern, offset, case_sensitive) {
                        proof {
                            assert(np.len() == pattern@.len());
                            assert(nk.len() == public_key@.len());
                            assert(seq_contains_at(nk, np, offset as int));
                        }
                        return true;
                    }
                    offset += 1;
                }
                proof {
                    assert(forall|i: int| seq_contains_at(nk, np, i) ==> 0 <= i <= limit);
                }
                false
            },
        }
    }
}

/// Compares two strings for equality after folding both to ASCII lower
/// case.
fn eq_folded(a: &str, b: &str) -> (r: bool)
    ensures
        r == (to_lower(a@) == to_lower(b@)),
{
    let a_len = a.unicode_len();
    let b_len = b.unicode_len();
    if a_len != b_len {
        proof {
            assert(to_lower(a@).len() != to_lower(b@).len());
        }
        return false;
    }
    let mut i: usize = 0;
    while i < a_len
        invariant
            i <= a_len,
            a_len == a@.len(),
            a_len == b_len,
            b_len == b@.len(),
            forall|t: int| 0 <= t < i ==> to_lower(a@)[t] == to_lower(b@)[t],
        decreases a_len - i,
    {
        let ca = fold_char(a.get_char(i), false);
        let cb = fold_char(b.get_char(i), false);
        if ca != cb {
            proof {
                assert(to_lower(a@)[i as int] != to_lower(b@)[i as int]);
            }
            return false;
        }
        i += 1;
    }
    proof {
        assert(to_lower(a@) =~= to_lower(b@));
    }
    true
}

impl core::str::FromStr for PatternType {
    type Err = String;

    /// Reads a match mode from its textual spelling, ignoring case.
    fn from_str(s: &str) -> Result<PatternType, String> {
        if eq_folded(s, "starts_with") || eq_folded(s, "starts") || eq_folded(s, "start") {
            Ok(PatternType::StartsWith)
        } else if eq_folded(s, "ends_with") || eq_folded(s, "ends") || eq_folded(s, "end") {
            Ok(PatternType::EndsWith)
        } else if eq_folded(s, "contains") || eq_folded(s, "contain") {
            Ok(PatternType::Contains)
        } else {
            let mut msg = "Invalid pattern type: ".to_owned();
            msg.append(s);
            Err(msg)
        }
    }
}

/// A candidate satisfies a case-sensitive `StartsWith` pattern exactly when
/// its first `pat.len()` characters equal the pattern.
pub proof fn lemma_starts_with_characterization(key: Seq<char>, pat: Seq<char>)
    ensures
        spec_matches(key, pat, PatternType::StartsWith, true) == (pat.len() <= key.len()
            && key.subrange(0, pat.len() as int) == pat),
{
}

/// Lower-casing is idempotent on whole strings.
proof fn lemma_to_lower_idempotent(s: Seq<char>)
    ensures
        to_lower(to_lower(s)) == to_lower(s),
{
    assert(to_lower(to_lower(s)) =~= to_lower(s));
}

/// Lower-casing wipes out a previous upper-casing.
proof fn lemma_to_lower_of_upper(s: Seq<char>)
    ensures
        to_lower(to_upper(s)) == to_lower(s),
{
    assert(to_lower(to_upper(s)) =~= to_lower(s));
}

/// Case-insensitive matching is symmetric under case transformation of
/// either side: folding candidate and pattern to lower case, or the
/// candidate alone to upper case, never changes the outcome.
pub proof fn lemma_case_insensitive_symmetry(key: Seq<char>, pat: Seq<char>, mode: PatternType)
    ensures
        spec_matches(key, pat, mode, false) == spec_matches(
            to_lower(key),
            to_lower(pat),
            mode,
            false,
        ),
        spec_matches(key, pat, mode, false) == spec_matches(to_upper(key), pat, mode, false),
{
    lemma_to_lower_idempotent(key);
    lemma_to_lower_idempotent(pat);
    lemma_to_lower_of_upper(key);
}

} // verus!

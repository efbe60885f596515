//! Scoring one identifier against a query: both are brought to lower case,
//! then their Damerau–Levenshtein distance is taken.

use crate::edit_distance::{
    edit_distance, is_edit_distance, lemma_edit_distance_is_least, lemma_edit_distance_symmetric,
    lemma_edit_distance_zero,
};
use vstd::prelude::*;

verus! {

/// The lower-case form of a string, as `str::to_lowercase` produces it.
pub uninterp spec fn lowercase(s: Seq<char>) -> Seq<char>;

/// `str::to_lowercase` of the standard library. Believed, not proved: the
/// result depends on nothing but the characters of the argument, so it has a
/// name, [`lowercase`]. Nothing else is claimed of it.
pub assume_specification[ str::to_lowercase ](s: &str) -> (lower: String)
    ensures
        lower@ == lowercase(s@),
;

/// The length, in characters, of the longest string that can be scored. The
/// distance is computed over rows of `len + 2` machine words that hold values
/// up to `2 * len + 2`: up to this length neither the rows nor the values
/// outgrow what the machine can hold.
pub const LONGEST_SCORED: usize = usize::MAX / 32;

/// Whether a string of `len` characters can be scored.
pub open spec fn scorable_len(len: nat) -> bool {
    len <= LONGEST_SCORED
}

/// `strsim::damerau_levenshtein`. Believed, not proved: the crate documents
/// the function as the Damerau–Levenshtein distance of the two strings, taken
/// character by character, in the variant where a substring may be edited
/// any number of times. The contract states that definition: `d` edits
/// (a character inserted, removed or replaced, two neighbours exchanged) turn
/// `a` into `b`, and no smaller number does. The lengths are bounded so that
/// the rows the crate allocates and the signed values it keeps in them stay
/// in range.
pub assume_specification[ strsim::damerau_levenshtein ](a: &str, b: &str) -> (d: usize)
    requires
        scorable_len(a@.len()),
        scorable_len(b@.len()),
    ensures
        is_edit_distance(a@, b@, d as nat),
;

/// Whether a string can be scored once it is in lower case.
pub open spec fn scorable(s: Seq<char>) -> bool {
    scorable_len(lowercase(s).len())
}

/// Brings the string to lower case and measures it against
/// [`LONGEST_SCORED`].
pub fn is_scorable(s: &str) -> (ok: bool)
    ensures
        ok == scorable(s@),
{
    let lower = s.to_lowercase();
    lower.as_str().unicode_len() <= LONGEST_SCORED
}

/// The score of an identifier against a query: the distance of their
/// lower-case forms.
pub open spec fn score(query: Seq<char>, identifier: Seq<char>) -> nat {
    edit_distance(lowercase(query), lowercase(identifier))
}

/// Scores `identifier` against `query`, ignoring case.
pub fn identifier_distance(query: &str, identifier: &str) -> (d: usize)
    requires
        scorable(query@),
        scorable(identifier@),
    ensures
        d == score(query@, identifier@),
{
    let q = query.to_lowercase();
    let id = identifier.to_lowercase();
    let d = strsim::damerau_levenshtein(q.as_str(), id.as_str());
    proof {
        lemma_edit_distance_is_least(q@, id@, d as nat);
    }
    d
}

/// The score does not depend on which of the two strings is the query.
pub proof fn lemma_score_symmetric(a: Seq<char>, b: Seq<char>)
    ensures
        score(a, b) == score(b, a),
{
    lemma_edit_distance_symmetric(lowercase(a), lowercase(b));
}

/// The score is zero where the two strings are equal, case ignored, and only
/// there.
pub proof fn lemma_score_zero(a: Seq<char>, b: Seq<char>)
    ensures
        score(a, b) == 0 <==> lowercase(a) == lowercase(b),
{
    lemma_edit_distance_zero(lowercase(a), lowercase(b));
}

} // verus!

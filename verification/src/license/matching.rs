//! Matching a query against the catalog: every entry is scored against the
//! query, the first entry with the least score wins, and a score of zero makes
//! the match exact.

use crate::license::{LicenseEntry, LicenseList, Match};
use crate::nearest::{first_minimum, lemma_first_minimum_exists, nearest, scores_of};
use crate::score::{identifier_distance, is_scorable, lowercase, scorable, score};
use vstd::prelude::*;

verus! {

impl LicenseList {
    /// The score of every entry against the query, in catalog order.
    pub open spec fn scores(&self, query: Seq<char>) -> Seq<nat> {
        Seq::new(self.licenses@.len(), |i: int| score(query, self.licenses@[i].license_id@))
    }

    /// Entry `i` shares its identifier, case ignored, with no other entry.
    pub open spec fn is_unique(&self, i: int) -> bool {
        forall|j: int|
            0 <= j < self.licenses@.len() && j != i ==> lowercase(
                #[trigger] self.licenses@[j].license_id@,
            ) != lowercase(self.licenses@[i].license_id@)
    }

    /// No two entries have the same identifier, case ignored. The catalog
    /// does not see to this itself: it is what the source is relied on for,
    /// and what makes an exact match the only one.
    pub open spec fn has_unique_identifiers(&self) -> bool {
        forall|i: int| 0 <= i < self.licenses@.len() ==> self.is_unique(i)
    }

    /// Whether the query and every identifier can be scored.
    pub open spec fn can_match(&self, query: Seq<char>) -> bool {
        &&& scorable(query)
        &&& forall|i: int|
            0 <= i < self.licenses@.len() ==> scorable(#[trigger] self.licenses@[i].license_id@)
    }

    /// The outcome of matching the query: none for an empty catalog, else the
    /// first entry with the least score, exact where that score is zero.
    /// However large the least score is, its entry is reported.
    pub open spec fn classify(&self, query: Seq<char>) -> Match<&LicenseEntry> {
        let scores = self.scores(query);
        let w = first_minimum(scores);
        if scores.len() == 0 {
            Match::NoMatch
        } else if scores[w] == 0 {
            Match::Exact(&self.licenses@[w])
        } else {
            Match::Closest(&self.licenses@[w])
        }
    }

    /// Matches the query against the catalog: scores every entry against the
    /// query, then picks the [`nearest`].
    pub fn find_match(&self, match_str: &str) -> (outcome: Match<&LicenseEntry>)
        requires
            self.can_match(match_str@),
        ensures
            outcome == self.classify(match_str@),
            outcome is NoMatch <==> self.licenses@.len() == 0,
    {
        let mut scored: Vec<(usize, &LicenseEntry)> = Vec::new();
        let mut i: usize = 0;
        while i < self.licenses.len()
            invariant
                i <= self.licenses@.len(),
                self.can_match(match_str@),
                scored@.len() == i,
                forall|j: int|
                    0 <= j < i ==> {
                        &&& (#[trigger] scored@[j]).0 == score(
                            match_str@,
                            self.licenses@[j].license_id@,
                        )
                        &&& scored@[j].1 == &self.licenses@[j]
                    },
            decreases self.licenses@.len() - i,
        {
            let entry = &self.licenses[i];
            let d: usize = identifier_distance(match_str, entry.license_id.as_str());
            scored.push((d, entry));
            i += 1;
        }
        proof {
            assert(scores_of(scored@) =~= self.scores(match_str@));
            if self.licenses@.len() > 0 {
                lemma_first_minimum_exists(self.scores(match_str@));
            }
        }
        nearest(&scored)
    }

    /// Whether [`LicenseList::find_match`] can be asked for this query.
    pub fn can_find_match(&self, match_str: &str) -> (ok: bool)
        ensures
            ok == self.can_match(match_str@),
    {
        if !is_scorable(match_str) {
            return false;
        }
        let mut i: usize = 0;
        while i < self.licenses.len()
            invariant
                i <= self.licenses@.len(),
                forall|j: int| 0 <= j < i ==> scorable(#[trigger] self.licenses@[j].license_id@),
            decreases self.licenses@.len() - i,
        {
            if !is_scorable(self.licenses[i].license_id.as_str()) {
                return false;
            }
            i += 1;
        }
        true
    }

    /// Matches the query against the catalog where every string involved can
    /// be scored, and says so where one cannot.
    pub fn try_find_match(&self, match_str: &str) -> (outcome: Option<Match<&LicenseEntry>>)
        ensures
            outcome == if self.can_match(match_str@) {
                Some(self.classify(match_str@))
            } else {
                None
            },
    {
        if self.can_find_match(match_str) {
            Some(self.find_match(match_str))
        } else {
            None
        }
    }
}

} // verus!

//! What holds of every match, whatever the catalog and the query.

use crate::edit_distance::{lemma_transposition_distance, transpose};
use crate::license::{LicenseList, Match};
use crate::nearest::{
    first_minimum, is_first_minimum, lemma_first_minimum_exists, lemma_first_minimum_is,
};
use crate::score::{lemma_score_zero, lowercase, score};
use vstd::prelude::*;

verus! {

/// Only an empty catalog leaves a query unmatched. Any other catalog gives an
/// exact or a closest match, whatever the query: the entry reported is the
/// first of those with the least score, and the match is exact where that
/// score is zero.
pub proof fn lemma_nonempty_catalog_always_matches(catalog: LicenseList, query: Seq<char>)
    ensures
        catalog.classify(query) is NoMatch <==> catalog.licenses@.len() == 0,
        catalog.licenses@.len() > 0 ==> {
            let scores = catalog.scores(query);
            let w = first_minimum(scores);
            &&& is_first_minimum(scores, w)
            &&& catalog.classify(query) == if scores[w] == 0 {
                Match::Exact(&catalog.licenses@[w])
            } else {
                Match::Closest(&catalog.licenses@[w])
            }
        },
{
    if catalog.licenses@.len() > 0 {
        lemma_first_minimum_exists(catalog.scores(query));
    }
}

/// The match is exact where some identifier is the query, case ignored, and
/// only there.
pub proof fn lemma_exact_iff_identifier_present(catalog: LicenseList, query: Seq<char>)
    ensures
        catalog.classify(query) is Exact <==> exists|i: int|
            0 <= i < catalog.licenses@.len() && lowercase(
                #[trigger] catalog.licenses@[i].license_id@,
            ) == lowercase(query),
{
    let scores = catalog.scores(query);
    assert forall|j: int| 0 <= j < scores.len() implies (scores[j] == 0 <==> lowercase(
        catalog.licenses@[j].license_id@,
    ) == lowercase(query)) by {
        lemma_score_zero(query, catalog.licenses@[j].license_id@);
    }
    if catalog.licenses@.len() > 0 {
        lemma_first_minimum_exists(scores);
        let w = first_minimum(scores);
        if scores[w] == 0 {
            assert(lowercase(catalog.licenses@[w].license_id@) == lowercase(query));
        }
        if exists|i: int|
            0 <= i < catalog.licenses@.len() && lowercase(
                #[trigger] catalog.licenses@[i].license_id@,
            ) == lowercase(query) {
            let i = choose|i: int|
                0 <= i < catalog.licenses@.len() && lowercase(
                    #[trigger] catalog.licenses@[i].license_id@,
                ) == lowercase(query);
            assert(scores[i] == 0);
            assert(scores[w] <= scores[i]);
        }
    }
}

/// The outcome is fixed by the entries, in their order, and by the query in
/// lower case: matching again, or with the query in another casing, gives the
/// same outcome.
pub proof fn lemma_outcome_is_determined(
    first: LicenseList,
    second: LicenseList,
    query: Seq<char>,
    again: Seq<char>,
)
    requires
        first.licenses@ == second.licenses@,
        lowercase(query) == lowercase(again),
    ensures
        first.classify(query) == second.classify(again),
{
    assert(first.scores(query) =~= second.scores(again));
}

/// A query that is the identifier of an entry, in any casing, is matched
/// exactly and to that entry, where no other entry has the same identifier,
/// case ignored.
pub proof fn lemma_identifier_matches_exactly(catalog: LicenseList, query: Seq<char>, i: int)
    requires
        0 <= i < catalog.licenses@.len(),
        catalog.is_unique(i),
        lowercase(query) == lowercase(catalog.licenses@[i].license_id@),
    ensures
        catalog.classify(query) == Match::Exact(&catalog.licenses@[i]),
{
    let scores = catalog.scores(query);
    assert forall|j: int| 0 <= j < scores.len() implies (scores[j] == 0 <==> j == i) by {
        lemma_score_zero(query, catalog.licenses@[j].license_id@);
    }
    assert(is_first_minimum(scores, i));
    lemma_first_minimum_is(scores, i);
}

/// In a catalog whose identifiers are unique, case ignored, every identifier
/// is matched exactly and to its own entry.
pub proof fn lemma_unique_catalog_finds_each_entry(catalog: LicenseList, i: int)
    requires
        catalog.has_unique_identifiers(),
        0 <= i < catalog.licenses@.len(),
    ensures
        catalog.classify(catalog.licenses@[i].license_id@) == Match::Exact(&catalog.licenses@[i]),
{
    lemma_identifier_matches_exactly(catalog, catalog.licenses@[i].license_id@, i);
}

/// Of the entries that share the least score, the one that comes first in the
/// catalog is reported: never one that has another of them before it.
pub proof fn lemma_first_seen_wins(catalog: LicenseList, query: Seq<char>, i: int, j: int)
    requires
        0 <= i < j < catalog.licenses@.len(),
        catalog.scores(query)[i] == catalog.scores(query)[j],
        forall|k: int|
            0 <= k < catalog.licenses@.len() ==> catalog.scores(query)[i] <= catalog.scores(
                query,
            )[k],
    ensures
        ({
            let scores = catalog.scores(query);
            let w = first_minimum(scores);
            &&& 0 <= w <= i
            &&& w != j
            &&& scores[w] == scores[i]
            &&& (forall|k: int| 0 <= k < i ==> scores[k] != scores[i]) ==> w == i
            &&& catalog.classify(query) == if scores[i] == 0 {
                Match::Exact(&catalog.licenses@[w])
            } else {
                Match::Closest(&catalog.licenses@[w])
            }
        }),
{
    let scores = catalog.scores(query);
    lemma_first_minimum_exists(scores);
    let w = first_minimum(scores);
    assert(scores[w] <= scores[i] <= scores[w]);
}

/// A query that is an identifier with two differing neighbours exchanged,
/// both taken in lower case, scores one against that identifier. Where no
/// entry scores zero, the first entry that scores one is reported as the
/// closest: the entry of that identifier, unless an earlier one scores one
/// too.
pub proof fn lemma_transposed_query_is_closest(
    catalog: LicenseList,
    query: Seq<char>,
    i: int,
    at: int,
)
    requires
        0 <= i < catalog.licenses@.len(),
        0 <= at,
        at + 1 < lowercase(catalog.licenses@[i].license_id@).len(),
        lowercase(catalog.licenses@[i].license_id@)[at] != lowercase(
            catalog.licenses@[i].license_id@,
        )[at + 1],
        lowercase(query) == transpose(lowercase(catalog.licenses@[i].license_id@), at),
        forall|k: int| 0 <= k < catalog.licenses@.len() ==> catalog.scores(query)[k] != 0,
    ensures
        score(query, catalog.licenses@[i].license_id@) == 1,
        ({
            let scores = catalog.scores(query);
            let w = first_minimum(scores);
            &&& 0 <= w <= i
            &&& scores[w] == 1
            &&& (forall|k: int| 0 <= k < i ==> scores[k] != 1) ==> w == i
            &&& catalog.classify(query) == Match::Closest(&catalog.licenses@[w])
        }),
{
    let scores = catalog.scores(query);
    lemma_transposition_distance(lowercase(catalog.licenses@[i].license_id@), at);
    assert(scores[i] == 1);
    lemma_first_minimum_exists(scores);
    let w = first_minimum(scores);
    assert(scores[w] != 0);
    assert(scores[w] <= scores[i]);
}

} // verus!

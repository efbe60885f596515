//! The rule by which one of several scored items is picked: the first of
//! those with the least score.

use crate::license::Match;
use vstd::prelude::*;

verus! {

/// `w` is the place of the first least element of `s`: what stands before it
/// is greater, what stands after it is not smaller.
pub open spec fn is_first_minimum(s: Seq<nat>, w: int) -> bool {
    &&& 0 <= w < s.len()
    &&& forall|j: int| 0 <= j < w ==> s[j] > s[w]
    &&& forall|j: int| w < j < s.len() ==> s[j] >= s[w]
}

/// The place of the first least element of a sequence that is not empty.
pub open spec fn first_minimum(s: Seq<nat>) -> int {
    choose|w: int| is_first_minimum(s, w)
}

/// A sequence has at most one first least element.
pub proof fn lemma_first_minimum_is(s: Seq<nat>, w: int)
    requires
        is_first_minimum(s, w),
    ensures
        first_minimum(s) == w,
{
    let v = first_minimum(s);
    assert(is_first_minimum(s, v));
    if v < w {
        assert(s[v] > s[w]);
    }
    if w < v {
        assert(s[w] > s[v]);
    }
}

/// A sequence that is not empty has a first least element.
pub proof fn lemma_first_minimum_exists(s: Seq<nat>)
    requires
        s.len() > 0,
    ensures
        is_first_minimum(s, first_minimum(s)),
    decreases s.len(),
{
    if s.len() == 1 {
        assert(is_first_minimum(s, 0));
    } else {
        let t = s.drop_last();
        lemma_first_minimum_exists(t);
        let v = first_minimum(t);
        assert forall|j: int| 0 <= j < t.len() implies t[j] == s[j] by {}
        if s.last() < t[v] {
            assert(is_first_minimum(s, s.len() - 1));
        } else {
            assert(is_first_minimum(s, v));
        }
    }
}

/// The scores of a sequence of scored items, as numbers.
pub open spec fn scores_of<T>(scored: Seq<(usize, T)>) -> Seq<nat> {
    Seq::new(scored.len(), |i: int| scored[i].0 as nat)
}

/// The outcome for a sequence of scored items: none where there is no item,
/// else the first item with the least score, exact where that score is zero.
pub open spec fn nearest_of<T>(scored: Seq<(usize, T)>) -> Match<T> {
    let w = first_minimum(scores_of(scored));
    if scored.len() == 0 {
        Match::NoMatch
    } else if scored[w].0 == 0 {
        Match::Exact(scored[w].1)
    } else {
        Match::Closest(scored[w].1)
    }
}

/// Picks the first item with the least score. The match is exact where that
/// score is zero and closest otherwise, however large the score; only of no
/// items at all is there no match.
pub fn nearest<T: Copy>(scored: &Vec<(usize, T)>) -> (outcome: Match<T>)
    ensures
        outcome == nearest_of(scored@),
        outcome is NoMatch <==> scored@.len() == 0,
        scored@.len() > 0 ==> exists|w: int|
            {
                &&& 0 <= w < scored@.len()
                &&& forall|j: int| 0 <= j < w ==> (#[trigger] scored@[j]).0 > scored@[w].0
                &&& forall|j: int|
                    w < j < scored@.len() ==> (#[trigger] scored@[j]).0 >= scored@[w].0
                &&& outcome == if scored@[w].0 == 0 {
                    Match::Exact(scored@[w].1)
                } else {
                    Match::Closest(scored@[w].1)
                }
            },
{
    if scored.len() == 0 {
        return Match::NoMatch;
    }
    let ghost scores = scores_of(scored@);
    let mut best: usize = 0;
    let mut i: usize = 1;
    while i < scored.len()
        invariant
            1 <= i <= scored@.len(),
            scores == scores_of(scored@),
            best < i,
            is_first_minimum(scores.take(i as int), best as int),
        decreases scored@.len() - i,
    {
        proof {
            let before = scores.take(i as int);
            let after = scores.take(i + 1);
            assert forall|j: int| 0 <= j < i implies before[j] == after[j] by {}
        }
        if scored[i].0 < scored[best].0 {
            best = i;
        }
        i += 1;
    }
    proof {
        assert(scores.take(i as int) =~= scores);
        lemma_first_minimum_is(scores, best as int);
        assert forall|j: int| 0 <= j < scored@.len() implies (#[trigger] scored@[j]).0
            == scores[j] by {}
    }
    if scored[best].0 == 0 {
        Match::Exact(scored[best].1)
    } else {
        Match::Closest(scored[best].1)
    }
}

} // verus!

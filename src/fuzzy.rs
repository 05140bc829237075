//! Fuzzy ranking of candidate names against a query.
//!
//! Scoring a single candidate is nucleo's work; ranking the scored
//! candidates, and the empty query that shows everything, are this module's.
use vstd::prelude::*;

verus! {

#[verifier::external_type_specification]
#[verifier::external_body]
pub struct ExMatcher(nucleo::Matcher);

/// The score nucleo gives `item` for `query` (smart case, smart
/// normalization, fuzzy atoms, default configuration); `None` where the
/// item does not match.
pub uninterp spec fn fuzzy_score(query: Seq<char>, item: Seq<char>) -> Option<u32>;

/// Relies on nucleo's `Matcher::new` with `Config::DEFAULT`.
#[verifier::external_body]
fn default_matcher() -> nucleo::Matcher {
    nucleo::Matcher::new(nucleo::Config::DEFAULT)
}

/// Relies on nucleo's `Pattern::new` (smart case, smart normalization, fuzzy
/// atoms) and `Pattern::score`: the score depends on the query and the item
/// alone, given a matcher of the default configuration, which is the only
/// kind this module makes.
#[verifier::external_body]
fn score_item(matcher: &mut nucleo::Matcher, query: &str, item: &str) -> (r: Option<u32>)
    ensures
        r == fuzzy_score(query@, item@),
{
    let pattern = nucleo::pattern::Pattern::new(
        query,
        nucleo::pattern::CaseMatching::Smart,
        nucleo::pattern::Normalization::Smart,
        nucleo::pattern::AtomKind::Fuzzy,
    );
    let mut buf = Vec::new();
    pattern.score(nucleo::Utf32Str::new(item, &mut buf), matcher)
}

/// A candidate that matched: its position among the candidates and its score.
#[derive(Debug, Clone, Copy, PartialEq, Eq, Structural)]
pub struct FuzzyMatch {
    pub index: usize,
    pub score: u32,
}

/// `a` ranks before `b`: a higher score, or the same score and an earlier
/// candidate.
pub open spec fn ranks_before(a: FuzzyMatch, b: FuzzyMatch) -> bool {
    a.score > b.score || (a.score == b.score && a.index < b.index)
}

/// `r` lists exactly the candidates that `scores` gives a score, each with
/// that score, best first, ties in candidate order.
pub open spec fn is_ranking(r: Seq<FuzzyMatch>, scores: Seq<Option<u32>>) -> bool {
    &&& forall|k: int|
        0 <= k < r.len() ==> #[trigger] r[k].index < scores.len() && scores[r[k].index as int]
            == Some(r[k].score)
    &&& forall|i: int|
        0 <= i < scores.len() && #[trigger] scores[i] is Some ==> exists|k: int|
            0 <= k < r.len() && #[trigger] r[k].index == i
    &&& forall|k: int, l: int| 0 <= k < l < r.len() ==> ranks_before(#[trigger] r[k], #[trigger] r[l])
}

/// The scores of each candidate for `query`.
pub open spec fn scores_for(query: Seq<char>, items: Seq<String>) -> Seq<Option<u32>> {
    Seq::new(items.len(), |i: int| fuzzy_score(query, items[i]@))
}

/// Ranks candidates by their scores: those with a score, best first, equal
/// scores in candidate order; those without are left out.
pub fn rank_matches(scores: &Vec<Option<u32>>) -> (r: Vec<FuzzyMatch>)
    ensures
        is_ranking(r@, scores@),
{
    let mut r: Vec<FuzzyMatch> = Vec::new();
    let mut i: usize = 0;
    while i < scores.len()
        invariant
            i <= scores@.len(),
            is_ranking(r@, scores@.take(i as int)),
            forall|k: int| 0 <= k < r@.len() ==> #[trigger] r@[k].index < i,
        decreases scores@.len() - i,
    {
        let ghost before = r@;
        if let Some(s) = scores[i] {
            let m = FuzzyMatch { index: i, score: s };
            let mut k: usize = r.len();
            while k > 0 && r[k - 1].score < s
                invariant
                    k <= r@.len(),
                    r@ == before,
                    forall|j: int| k <= j < r@.len() ==> #[trigger] r@[j].score < s,
                decreases k,
            {
                k = k - 1;
            }
            r.insert(k, m);
            proof {
                let t = scores@.take(i + 1);
                assert forall|j: int| 0 <= j < r@.len() implies #[trigger] r@[j].index < t.len() && t[r@[j].index as int] == Some(r@[j].score) by {
                    if j < k {
                        assert(r@[j] == before[j]);
                    } else if j > k {
                        assert(r@[j] == before[j - 1]);
                    }
                }
                assert forall|x: int| 0 <= x < t.len() && #[trigger] t[x] is Some implies exists|j: int| 0 <= j < r@.len() && #[trigger] r@[j].index == x by {
                    if x == i {
                        assert(r@[k as int].index == x);
                    } else {
                        assert(scores@.take(i as int)[x] is Some);
                        let j = choose|j: int| 0 <= j < before.len() && #[trigger] before[j].index == x;
                        if j < k {
                            assert(r@[j] == before[j]);
                        } else {
                            assert(r@[j + 1] == before[j]);
                        }
                    }
                }
                assert forall|a: int, b: int| 0 <= a < b < r@.len() implies ranks_before(#[trigger] r@[a], #[trigger] r@[b]) by {
                    if b < k {
                        assert(r@[a] == before[a] && r@[b] == before[b]);
                    } else if a > k {
                        assert(r@[a] == before[a - 1] && r@[b] == before[b - 1]);
                    } else if a == k {
                        assert(r@[b] == before[b - 1]);
                    } else if b == k {
                        assert(r@[a] == before[a]);
                        assert(before[k - 1].score >= s);
                        if a < k - 1 {
                            assert(ranks_before(before[a], before[k - 1]));
                        }
                    } else {
                        assert(r@[a] == before[a] && r@[b] == before[b - 1]);
                    }
                }
            }
        } else {
            proof {
                let t = scores@.take(i + 1);
                assert forall|x: int| 0 <= x < t.len() && #[trigger] t[x] is Some implies exists|j: int| 0 <= j < r@.len() && #[trigger] r@[j].index == x by {
                    assert(scores@.take(i as int)[x] is Some);
                }
            }
        }
        i = i + 1;
    }
    assert(scores@.take(i as int) =~= scores@);
    r
}

/// Scores candidate names against queries and ranks them.
pub struct FuzzyMatcher {
    matcher: nucleo::Matcher,
}

impl FuzzyMatcher {
    pub fn new() -> (r: FuzzyMatcher) {
        FuzzyMatcher { matcher: default_matcher() }
    }

    /// The candidates that match `query`, best first. An empty query keeps
    /// every candidate, in order, with score 0.
    pub fn filter(&mut self, query: &str, items: &[String]) -> (r: Vec<FuzzyMatch>)
        ensures
            query@.len() == 0 ==> r@.len() == items@.len() && forall|k: int|
                0 <= k < r@.len() ==> #[trigger] r@[k] == (FuzzyMatch { index: k as usize, score: 0 }),
            query@.len() > 0 ==> is_ranking(r@, scores_for(query@, items@)),
    {
        if query.is_empty() {
            let mut r: Vec<FuzzyMatch> = Vec::new();
            let mut i: usize = 0;
            while i < items.len()
                invariant
                    i <= items@.len(),
                    r@.len() == i,
                    forall|k: int| 0 <= k < i ==> #[trigger] r@[k] == (FuzzyMatch { index: k as usize, score: 0 }),
                decreases items@.len() - i,
            {
                r.push(FuzzyMatch { index: i, score: 0 });
                i = i + 1;
            }
            return r;
        }
        let mut scores: Vec<Option<u32>> = Vec::new();
        let mut i: usize = 0;
        while i < items.len()
            invariant
                i <= items@.len(),
                scores@ == scores_for(query@, items@).take(i as int),
            decreases items@.len() - i,
        {
            let s = score_item(&mut self.matcher, query, items[i].as_str());
            scores.push(s);
            i = i + 1;
            assert(scores@ =~= scores_for(query@, items@).take(i as int));
        }
        assert(scores@ =~= scores_for(query@, items@));
        rank_matches(&scores)
    }
}

/// Fuzzy non-match: a candidate that the query does not match is left out
/// of the ranking.
pub proof fn lemma_unmatched_excluded(r: Seq<FuzzyMatch>, scores: Seq<Option<u32>>, i: int)
    requires
        is_ranking(r, scores),
        0 <= i < scores.len(),
        scores[i] is None,
    ensures
        forall|k: int| 0 <= k < r.len() ==> #[trigger] r[k].index != i,
{
}

} // verus!

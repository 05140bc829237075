use prj::fuzzy::{rank_matches, FuzzyMatch, FuzzyMatcher};

fn strings(v: &[&str]) -> Vec<String> {
    v.iter().map(|s| s.to_string()).collect()
}

#[test]
fn empty_query_keeps_everything_in_order() {
    let mut m = FuzzyMatcher::new();
    let items = strings(&["zeta", "alpha", "mid"]);
    let r = m.filter("", &items);
    assert_eq!(r.len(), 3);
    for (i, fm) in r.iter().enumerate() {
        assert_eq!(*fm, FuzzyMatch { index: i, score: 0 });
    }
    assert!(m.filter("", &[]).is_empty());
}

#[test]
fn non_matching_candidate_excluded() {
    let mut m = FuzzyMatcher::new();
    let items = strings(&["project-abc", "xyz", "cab"]);
    let r = m.filter("abc", &items);
    let idx: Vec<usize> = r.iter().map(|f| f.index).collect();
    assert!(idx.contains(&0));
    assert!(!idx.contains(&1));
    assert!(!idx.contains(&2));
    assert!(m.filter("qq", &items).is_empty());
}

#[test]
fn filter_ranks_best_first() {
    let mut m = FuzzyMatcher::new();
    let items = strings(&["a-x-b-x-c", "abc", "zzz"]);
    let r = m.filter("abc", &items);
    assert_eq!(r.len(), 2);
    assert_eq!(r[0].index, 1);
    assert!(r[0].score >= r[1].score);
}

#[test]
fn rank_matches_orders_by_score_then_index() {
    let scores = vec![Some(5), None, Some(9), Some(5), Some(1)];
    let r = rank_matches(&scores);
    assert_eq!(
        r,
        vec![
            FuzzyMatch { index: 2, score: 9 },
            FuzzyMatch { index: 0, score: 5 },
            FuzzyMatch { index: 3, score: 5 },
            FuzzyMatch { index: 4, score: 1 },
        ]
    );
    assert!(rank_matches(&vec![None, None]).is_empty());
}

use sid::command_palette::{fuzzy_score, move_selection, rank_candidates, selected_index, MAX_RESULTS};

#[test]
fn empty_query_matches_everything_with_baseline_score() {
    assert_eq!(fuzzy_score("", "anything"), Some(0));
    assert_eq!(fuzzy_score("   ", "anything"), Some(0));
}

#[test]
fn exact_match_scores_highest() {
    let exact = fuzzy_score("database", "Database").unwrap();
    let prefix = fuzzy_score("data", "Database").unwrap();
    let substring = fuzzy_score("abas", "Database").unwrap();
    let subsequence = fuzzy_score("dtb", "Database").unwrap();
    assert!(exact > prefix);
    assert!(prefix > substring);
    assert!(substring > subsequence);
}

#[test]
fn matching_is_case_insensitive() {
    assert_eq!(
        fuzzy_score("DATABASE", "database"),
        fuzzy_score("database", "database")
    );
}

#[test]
fn subsequence_must_stay_in_order() {
    assert_eq!(fuzzy_score("ssh", "hss"), None);
    assert!(fuzzy_score("ssh", "s-s-h").is_some());
}

#[test]
fn no_match_returns_none() {
    assert_eq!(fuzzy_score("zzz", "Database"), None);
}

#[test]
fn denser_subsequence_spans_score_higher() {
    let tight = fuzzy_score("cnn", "connection").unwrap();
    let scattered = fuzzy_score("cnn", "c................n.........n").unwrap();
    assert!(tight > scattered);
}

#[test]
fn score_formulas_give_exact_values() {
    assert_eq!(fuzzy_score("database", "Database"), Some(1000));
    // prefix: 500 - byte length of the candidate
    assert_eq!(fuzzy_score("data", "Database"), Some(492));
    // substring: 250 - byte position of the first occurrence
    assert_eq!(fuzzy_score("abas", "Database"), Some(247));
    // subsequence: 100 - index of the last matched character
    assert_eq!(fuzzy_score("dtb", "Database"), Some(96));
}

#[test]
fn surrounding_whitespace_in_the_query_is_ignored() {
    assert_eq!(fuzzy_score("  data  ", "Database"), fuzzy_score("data", "Database"));
}

#[test]
fn ranked_candidates_put_the_best_first_and_keep_offer_order_on_ties() {
    let labels: Vec<String> = ["Database tab", "data", "Network", "metadata"]
        .iter()
        .map(|s| s.to_string())
        .collect();
    let out = rank_candidates("data", &labels);
    let idx: Vec<usize> = out.iter().map(|m| m.index).collect();
    assert_eq!(idx, vec![1, 0, 3]);
    assert_eq!(out[0].score, 1000);
}

#[test]
fn ranked_candidates_are_capped() {
    let labels: Vec<String> = (0..40).map(|i| format!("item {i}")).collect();
    let out = rank_candidates("", &labels);
    assert_eq!(out.len(), MAX_RESULTS);
    let idx: Vec<usize> = out.iter().map(|m| m.index).collect();
    assert_eq!(idx, (0..30).collect::<Vec<usize>>());
}

#[test]
fn selection_clamps_and_wraps() {
    assert_eq!(selected_index(5, 0), None);
    assert_eq!(selected_index(5, 3), Some(2));
    assert_eq!(selected_index(1, 3), Some(1));
    assert_eq!(move_selection(0, -1, 3), 2);
    assert_eq!(move_selection(2, 1, 3), 0);
    assert_eq!(move_selection(7, 1, 3), 0);
    assert_eq!(move_selection(4, 1, 0), 4);
}

#[test]
fn unicode_whitespace_around_the_query_is_ignored_too() {
    assert_eq!(
        fuzzy_score("\u{3000}data\u{a0}\u{85}", "Database"),
        fuzzy_score("data", "Database")
    );
    // a character outside the whitespace class is part of the query
    assert_eq!(fuzzy_score("\u{200b}data", "Database"), None);
}

#[test]
fn match_kinds_rank_apart_whatever_the_candidate_length() {
    let long_prefix = format!("db{}", "x".repeat(298));
    let long_tail = format!("{}db", "y".repeat(600));
    let exact = fuzzy_score("db", "DB").unwrap();
    let prefix = fuzzy_score("db", &long_prefix).unwrap();
    let substring = fuzzy_score("db", "xdb").unwrap();
    let far_substring = fuzzy_score("db", &long_tail).unwrap();
    let subsequence = fuzzy_score("db", "d-b").unwrap();
    assert_eq!(exact, 1000);
    assert_eq!(prefix, 251);
    assert_eq!(substring, 249);
    assert_eq!(far_substring, 101);
    assert_eq!(subsequence, 98);
    assert!(exact > prefix && prefix > substring && far_substring > subsequence);
    let far_subsequence = fuzzy_score("db", &format!("d{}b", "z".repeat(500))).unwrap();
    assert_eq!(far_subsequence, 1);
}

#[test]
fn upper_casing_an_ascii_query_or_candidate_changes_no_score() {
    for (q, c) in [("data", "Database"), ("cnn", "Connection"), ("  ssh ", "open SSH"), ("xyz", "abc")] {
        assert_eq!(fuzzy_score(&q.to_ascii_uppercase(), c), fuzzy_score(q, c));
        assert_eq!(fuzzy_score(q, &c.to_ascii_uppercase()), fuzzy_score(q, c));
    }
}

use gitsock::errors::GitSockError;
use gitsock::heuristic::{decide_commit_identity, parse_selection, pattern_percentages,
    CommitChoice};
use gitsock::text::count_occurrences;
use gitsock::types::Account;

fn names(list: &[&str]) -> Vec<String> {
    list.iter().map(|s| s.to_string()).collect()
}

fn account(username: &str) -> Account {
    Account {
        username: username.to_string(),
        name: username.to_string(),
        email: format!("{}@e.com", username),
        ssh_path: None,
        alias: None,
        token: None,
        default: false,
    }
}

#[test]
fn alice_twice_beats_bob_once() {
    let result = pattern_percentages(&names(&["alice", "bob"]), "alice alice bob");
    assert_eq!(result, Some(vec![("alice".to_string(), 2)]));
}

#[test]
fn a_tie_keeps_both_in_discovery_order() {
    let result = pattern_percentages(&names(&["alice", "bob"]), "alice bob");
    assert_eq!(
        result,
        Some(vec![("alice".to_string(), 1), ("bob".to_string(), 1)])
    );
}

#[test]
fn empty_text_matches_nothing() {
    assert_eq!(pattern_percentages(&names(&["alice", "bob"]), ""), None);
}

#[test]
fn no_candidates_matches_nothing() {
    assert_eq!(pattern_percentages(&Vec::new(), "alice bob"), None);
}

#[test]
fn absent_candidates_are_dropped() {
    let result = pattern_percentages(&names(&["alice", "zoe"]), "alice says hi");
    assert_eq!(result, Some(vec![("alice".to_string(), 1)]));
}

#[test]
fn empty_candidates_are_skipped() {
    let result = pattern_percentages(&names(&["", "bob"]), "bob bob");
    assert_eq!(result, Some(vec![("bob".to_string(), 2)]));
}

#[test]
fn matching_is_case_sensitive() {
    assert_eq!(pattern_percentages(&names(&["Alice"]), "alice alice"), None);
}

#[test]
fn counting_is_non_overlapping() {
    assert_eq!(count_occurrences("aaaa", "aa"), 2);
    assert_eq!(count_occurrences("aaa", "aa"), 1);
    assert_eq!(count_occurrences("abcabcabc", "abc"), 3);
    assert_eq!(count_occurrences("abc", "x"), 0);
    assert_eq!(count_occurrences("", "x"), 0);
}

#[test]
fn commit_identity_single_winner() {
    let accounts = vec![account("alice"), account("bob")];
    match decide_commit_identity(&accounts, "alice alice bob") {
        CommitChoice::UseAccount(u) => assert_eq!(u, "alice"),
        _ => panic!("expected a single winner"),
    }
}

#[test]
fn commit_identity_falls_back_without_matches() {
    let accounts = vec![account("alice"), account("bob")];
    assert!(matches!(
        decide_commit_identity(&accounts, "nobody here"),
        CommitChoice::UseActive
    ));
}

#[test]
fn commit_identity_reports_ties_in_order() {
    let accounts = vec![account("alice"), account("bob")];
    match decide_commit_identity(&accounts, "bob alice") {
        CommitChoice::Choose(v) => {
            assert_eq!(
                v,
                vec![("alice".to_string(), 1), ("bob".to_string(), 1)]
            );
        },
        _ => panic!("expected a tie"),
    }
}

#[test]
fn selection_accepts_numbers_in_range() {
    assert_eq!(parse_selection("1", 3), Ok(0));
    assert_eq!(parse_selection("3", 3), Ok(2));
    assert_eq!(parse_selection("12", 20), Ok(11));
}

#[test]
fn selection_rejects_bad_input() {
    assert_eq!(parse_selection("0", 3), Err(GitSockError::Input));
    assert_eq!(parse_selection("4", 3), Err(GitSockError::Input));
    assert_eq!(parse_selection("", 3), Err(GitSockError::Input));
    assert_eq!(parse_selection("two", 3), Err(GitSockError::Input));
    assert_eq!(parse_selection("1x", 3), Err(GitSockError::Input));
    assert_eq!(parse_selection("-1", 3), Err(GitSockError::Input));
    assert_eq!(
        parse_selection("99999999999999999999999999", 3),
        Err(GitSockError::Input)
    );
}

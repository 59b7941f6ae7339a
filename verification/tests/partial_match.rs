use jr::partial_match::{MatchResult, partial_match, partial_match_exact_only};

fn candidates() -> Vec<String> {
    vec![
        "In Progress".into(),
        "In Review".into(),
        "Blocked".into(),
        "Done".into(),
    ]
}

#[test]
fn test_exact_match_case_insensitive() {
    match partial_match("in progress", &candidates()) {
        MatchResult::Exact(s) => assert_eq!(s, "In Progress"),
        _ => panic!("Expected exact match"),
    }
}

#[test]
fn test_partial_match_ambiguous() {
    match partial_match("In", &candidates()) {
        MatchResult::Ambiguous(matches) => {
            assert_eq!(matches.len(), 2);
            assert!(matches.contains(&"In Progress".to_string()));
            assert!(matches.contains(&"In Review".to_string()));
        }
        _ => panic!("Expected ambiguous match"),
    }
}

#[test]
fn test_no_match() {
    match partial_match("Deployed", &candidates()) {
        MatchResult::NoMatch(all) => assert_eq!(all.len(), 4),
        _ => panic!("Expected no match"),
    }
}

#[test]
fn test_exact_match_duplicate_returns_exact_multiple() {
    let candidates = vec!["John Smith".into(), "Jane Doe".into(), "John Smith".into()];
    match partial_match("John Smith", &candidates) {
        MatchResult::ExactMultiple(names) => {
            assert_eq!(names.len(), 2);
            assert!(names.iter().all(|n| n == "John Smith"));
        }
        other => panic!("Expected ExactMultiple, got {:?}", other),
    }
}

#[test]
fn test_exact_match_duplicate_case_insensitive() {
    let candidates = vec!["John Smith".into(), "john smith".into()];
    match partial_match("john smith", &candidates) {
        MatchResult::ExactMultiple(names) => {
            assert_eq!(names.len(), 2);
            assert_eq!(names[0], "John Smith");
            assert_eq!(names[1], "john smith");
        }
        other => panic!("Expected ExactMultiple, got {:?}", other),
    }
}

#[test]
fn test_exact_match_three_duplicates() {
    let candidates = vec![
        "John Smith".into(),
        "Jane Doe".into(),
        "John Smith".into(),
        "John Smith".into(),
    ];
    match partial_match("John Smith", &candidates) {
        MatchResult::ExactMultiple(names) => {
            assert_eq!(names.len(), 3);
        }
        other => panic!("Expected ExactMultiple, got {:?}", other),
    }
}

#[test]
fn test_partial_match_unique() {
    match partial_match("prog", &candidates()) {
        MatchResult::Exact(s) => assert_eq!(s, "In Progress"),
        _ => panic!("Expected unique match"),
    }
}

#[test]
fn test_blocked_unique() {
    match partial_match("block", &candidates()) {
        MatchResult::Exact(s) => assert_eq!(s, "Blocked"),
        _ => panic!("Expected unique match"),
    }
}

#[test]
fn exact_only_matching_refuses_a_lone_substring_hit() {
    match partial_match_exact_only("prog", &candidates()) {
        MatchResult::Ambiguous(ms) => assert_eq!(ms, vec!["In Progress".to_string()]),
        other => panic!("Expected a lone substring hit to need disambiguation, got {:?}", other),
    }
    match partial_match_exact_only("in progress", &candidates()) {
        MatchResult::Exact(s) => assert_eq!(s, "In Progress"),
        other => panic!("unexpected {:?}", other),
    }
}

#[test]
fn test_exact_candidate_always_found() {
    for input in candidates() {
        match partial_match(&input, &candidates()) {
            MatchResult::Exact(s) => assert_eq!(s, input),
            other => panic!("Expected exact match for '{}', got {:?}", input, other),
        }
    }
}

#[test]
fn test_empty_candidates_yield_no_match() {
    match partial_match("abc", &[]) {
        MatchResult::NoMatch(all) => assert!(all.is_empty()),
        other => panic!("Expected no match, got {:?}", other),
    }
}

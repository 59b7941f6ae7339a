use jr::types::bulk::{BulkActionError, BulkOperationProgress, summarize_action_error};

fn progress_with_status(status: &str) -> BulkOperationProgress {
    BulkOperationProgress {
        task_id: None,
        status: status.to_string(),
        processed_accessible_issues: Vec::new(),
        failed_accessible_issues: std::collections::HashMap::new(),
        progress_percent: None,
        total_issue_count: None,
        invalid_or_inaccessible_issue_count: None,
        failure_reason: None,
    }
}

#[test]
fn is_terminal_recognizes_documented_and_empirical_aliases() {
    let terminal = [
        "COMPLETE",
        "COMPLETED",
        "FAILED",
        "CANCELLED",
        "DEAD",
        "PARTIAL_FAILURE",
        "PROCESSED_WITH_ERRORS",
    ];
    let non_terminal = [
        "RUNNING",
        "ENQUEUED",
        "PENDING",
        "IN_PROGRESS",
        "CANCEL_REQUESTED",
        "",
        "unknown",
    ];
    for s in terminal {
        assert!(
            progress_with_status(s).is_terminal(),
            "expected {s} terminal"
        );
    }
    for s in non_terminal {
        assert!(
            !progress_with_status(s).is_terminal(),
            "expected {s} non-terminal"
        );
    }
}
#[test]
fn test_336_is_known_status_recognizes_documented_set() {
    let known = [
        "COMPLETE",
        "COMPLETED",
        "FAILED",
        "CANCELLED",
        "DEAD",
        "PARTIAL_FAILURE",
        "PROCESSED_WITH_ERRORS",
        "ENQUEUED",
        "RUNNING",
        "CANCEL_REQUESTED",
    ];
    let unknown = [
        "PAUSED",
        "PENDING",
        "IN_PROGRESS",
        "FOO_BAR",
        "",
        "unknown",
        "complete",
    ];
    for s in known {
        assert!(
            progress_with_status(s).is_known_status(),
            "expected {s} to be a known status"
        );
    }
    for s in unknown {
        assert!(
            !progress_with_status(s).is_known_status(),
            "expected {s} to be an unknown status"
        );
    }
}

#[test]
fn success_means_no_failed_issue() {
    let mut p = progress_with_status("COMPLETE");
    assert!(p.is_success());
    p.failed_accessible_issues.insert(
        "A-1".to_string(),
        BulkActionError { error_messages: vec!["nope".into()], errors: None },
    );
    assert!(!p.is_success());
}

#[test]
fn action_error_summary_prefers_messages() {
    let e = BulkActionError {
        error_messages: vec!["first".into(), "second".into()],
        errors: Some(vec![("summary".to_string(), "\"too long\"".to_string())]),
    };
    assert_eq!(e.summary(), "first; second");
}

#[test]
fn action_error_summary_falls_back_to_field_errors() {
    let e = BulkActionError {
        error_messages: vec![],
        errors: Some(vec![
            ("a".to_string(), "1".to_string()),
            ("b".to_string(), "\"x\"".to_string()),
        ]),
    };
    assert_eq!(e.summary(), "a: 1; b: \"x\"");
}

#[test]
fn action_error_summary_unknown_when_nothing_said() {
    let e = BulkActionError { error_messages: vec![], errors: None };
    assert_eq!(e.summary(), "unknown error");
    let e = BulkActionError {
        error_messages: vec![],
        errors: Some(vec![]),
    };
    assert_eq!(e.summary(), "unknown error");
}

#[test]
fn summarize_action_error_from_pairs() {
    let pairs = vec![("k".to_string(), "v".to_string()), ("x".to_string(), "y".to_string())];
    assert_eq!(summarize_action_error(&vec![], &Some(pairs)), "k: v; x: y");
    assert_eq!(summarize_action_error(&vec![], &None), "unknown error");
    assert_eq!(summarize_action_error(&vec!["m".to_string()], &None), "m");
}

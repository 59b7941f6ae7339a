use jr::error::JrError;
use jr::queue::{
    QueueIdSource, collapse_and_truncate, describe_aux_lookup_error, resolve_queue_by_name,
    build_key_in_jql, extra_fields_allow_list, is_customfield_token, reorder_by_queue_position,
};
use jr::types::jira::Issue;
use jr::types::jsm::Queue;

fn make_queue(id: &str, name: &str) -> Queue {
    Queue {
        id: id.into(),
        name: name.into(),
        jql: None,
        fields: None,
        issue_count: None,
    }
}

fn find_queue_id(name: &str, queues: &[Queue]) -> Result<String, String> {
    match resolve_queue_by_name(queues, name) {
        Ok((id, _)) => Ok(id),
        Err(JrError::UserError(m)) if m.starts_with("Multiple queues named") => {
            Err("duplicate".into())
        }
        Err(JrError::UserError(m)) if m.contains("matches multiple queues") => {
            Err(format!("ambiguous: {m}"))
        }
        Err(JrError::UserError(m)) if m.starts_with("No queue matching") => Err("none".into()),
        Err(other) => Err(format!("unexpected: {other:?}")),
    }
}

#[test]
fn exact_match() {
    let queues = vec![make_queue("10", "Triage"), make_queue("20", "In Progress")];
    assert_eq!(find_queue_id("Triage", &queues).unwrap(), "10");
}

#[test]
fn single_substring_is_ambiguous() {
    let queues = vec![make_queue("10", "Triage"), make_queue("20", "In Progress")];
    let err = find_queue_id("tri", &queues).unwrap_err();
    assert!(err.starts_with("ambiguous"), "got: {err}");
}

#[test]
fn ambiguous_match() {
    let queues = vec![
        make_queue("10", "Escalated - Client"),
        make_queue("20", "Escalated - External"),
    ];
    let err = find_queue_id("esc", &queues).unwrap_err();
    assert!(err.starts_with("ambiguous"));
}

#[test]
fn no_match() {
    let queues = vec![make_queue("10", "Triage")];
    let err = find_queue_id("nonexistent", &queues).unwrap_err();
    assert_eq!(err, "none");
}

#[test]
fn duplicate_names() {
    let queues = vec![make_queue("10", "Triage"), make_queue("20", "Triage")];
    let err = find_queue_id("Triage", &queues).unwrap_err();
    assert!(err.starts_with("duplicate"));
}

fn make_issue(key: &str) -> Issue {
    Issue {
        key: key.to_string(),
        ..Default::default()
    }
}

#[test]
fn build_jql_single_key() {
    let jql = build_key_in_jql(&["FOO-1".to_string()]);
    assert_eq!(jql, "key IN (FOO-1)");
}

#[test]
fn build_jql_multiple_keys() {
    let keys = vec![
        "FOO-1".to_string(),
        "FOO-2".to_string(),
        "BAR-99".to_string(),
    ];
    let jql = build_key_in_jql(&keys);
    assert_eq!(jql, "key IN (FOO-1, FOO-2, BAR-99)");
}

#[test]
fn reorder_matches_queue_order() {
    let issues = vec![
        make_issue("FOO-3"),
        make_issue("FOO-1"),
        make_issue("FOO-2"),
    ];
    let queue_keys = vec!["FOO-1".into(), "FOO-2".into(), "FOO-3".into()];
    let result = reorder_by_queue_position(issues, &queue_keys);
    let keys: Vec<&str> = result.iter().map(|i| i.key.as_str()).collect();
    assert_eq!(keys, vec!["FOO-1", "FOO-2", "FOO-3"]);
}

#[test]
fn reorder_omits_nothing_on_full_match() {
    let issues = vec![make_issue("A-1"), make_issue("A-2")];
    let queue_keys = vec!["A-2".into(), "A-1".into()];
    let result = reorder_by_queue_position(issues, &queue_keys);
    assert_eq!(result.len(), 2);
    assert_eq!(result[0].key, "A-2");
    assert_eq!(result[1].key, "A-1");
}

#[test]
fn reorder_with_missing_key_from_search() {
    let issues = vec![make_issue("A-1"), make_issue("A-3")];
    let queue_keys = vec!["A-1".into(), "A-2".into(), "A-3".into()];
    let result = reorder_by_queue_position(issues, &queue_keys);
    assert_eq!(result.len(), 2);
    assert_eq!(result[0].key, "A-1");
    assert_eq!(result[1].key, "A-3");
}

#[test]
fn reorder_empty_issues() {
    let issues: Vec<Issue> = vec![];
    let queue_keys = vec!["A-1".into()];
    let result = reorder_by_queue_position(issues, &queue_keys);
    assert!(result.is_empty());
}

#[test]
fn test_is_customfield_token_accepts_valid_shapes() {
    for accepted in ["customfield_10050", "customfield_1", "customfield_0"] {
        assert!(
            is_customfield_token(accepted),
            "expected {accepted:?} to be accepted"
        );
    }
}

#[test]
fn test_is_customfield_token_rejects_malformed_and_non_matching_shapes() {
    for rejected in [
        "customfield_",
        "customfield_10050_x",
        "Customfield_99",
        "issuekey",
        "summary",
        "status",
        "customfield_-1",
        "customfield_+1",
        "customfield_ 1",
        "customfield_10050 ",
        "customfield_१०",
        "",
    ] {
        assert!(
            !is_customfield_token(rejected),
            "expected {rejected:?} to be rejected"
        );
    }
}

#[test]
fn test_extra_fields_allow_list_none_yields_empty() {
    assert!(extra_fields_allow_list(None).is_empty());
}

#[test]
fn test_extra_fields_allow_list_keeps_only_customfield_tokens() {
    let fields = vec![
        "issuekey".to_string(),
        "summary".to_string(),
        "customfield_10050".to_string(),
        "customfield_".to_string(),
        "customfield_10050_x".to_string(),
        "Customfield_99".to_string(),
    ];
    assert_eq!(
        extra_fields_allow_list(Some(&fields)),
        vec!["customfield_10050"]
    );
}

#[test]
fn test_extra_fields_allow_list_empty_slice_yields_empty() {
    let fields: Vec<String> = vec![];
    assert!(extra_fields_allow_list(Some(&fields)).is_empty());
}

#[test]
fn test_extra_fields_allow_list_all_rejected_yields_empty() {
    let fields = vec!["issuekey".to_string(), "status".to_string()];
    assert!(extra_fields_allow_list(Some(&fields)).is_empty());
}

#[test]
fn test_extra_fields_allow_list_dedups_preserving_first_seen_order() {
    let fields = vec![
        "customfield_10050".to_string(),
        "customfield_20099".to_string(),
        "customfield_10050".to_string(),
    ];
    assert_eq!(
        extra_fields_allow_list(Some(&fields)),
        vec!["customfield_10050", "customfield_20099"]
    );
}

#[test]
fn collapse_and_truncate_makes_one_line() {
    assert_eq!(collapse_and_truncate("  a\n\n b\tc  "), "a b c");
    assert_eq!(collapse_and_truncate(""), "");
    assert_eq!(collapse_and_truncate(" \n "), "");
}

#[test]
fn collapse_and_truncate_caps_at_200_chars() {
    let long = "x".repeat(250);
    let got = collapse_and_truncate(&long);
    assert_eq!(got.chars().count(), 201);
    assert_eq!(got, format!("{}\u{2026}", "x".repeat(200)));
    let exact = "y".repeat(200);
    assert_eq!(collapse_and_truncate(&exact), exact);
}

#[test]
fn aux_lookup_error_descriptions() {
    let api = JrError::ApiError { status: 503, message: "body\nwith lines".into() };
    assert_eq!(describe_aux_lookup_error(Some(&api), "ignored"), "API error (503)");
    let na = JrError::NotAuthenticated { hint: "x".into() };
    assert_eq!(describe_aux_lookup_error(Some(&na), "ignored"), "not authenticated");
    let user = JrError::UserError("multi\nline   cause".into());
    assert_eq!(describe_aux_lookup_error(Some(&user), "ignored"), "multi line cause");
    assert_eq!(describe_aux_lookup_error(None, "connection\r\nreset"), "connection reset");
}

#[test]
fn queue_id_source_id() {
    assert_eq!(QueueIdSource::ById("7".into()).id(), "7");
    let s = QueueIdSource::ByName { id: "9".into(), fields: None };
    assert_eq!(s.id(), "9");
}

#[test]
fn resolve_queue_by_name_outcomes() {
    let mut q1 = make_queue("10", "Triage");
    q1.fields = Some(vec!["customfield_1".into()]);
    let queues = vec![q1, make_queue("20", "In Progress")];
    let (id, fields) = resolve_queue_by_name(&queues, "triage").unwrap();
    assert_eq!(id, "10");
    assert_eq!(fields, Some(vec!["customfield_1".to_string()]));

    let err = resolve_queue_by_name(&queues, "nope").unwrap_err();
    assert_eq!(
        err.message(),
        "No queue matching \"nope\" found. Run \"jr queue list\" to see available queues."
    );
    assert_eq!(err.exit_code(), 64);

    let err = resolve_queue_by_name(&queues, "r").unwrap_err();
    assert_eq!(
        err.message(),
        "\"r\" matches multiple queues: \"Triage\", \"In Progress\". Be more specific or use --id."
    );

    let dups = vec![make_queue("10", "Triage"), make_queue("20", "TRIAGE")];
    let err = resolve_queue_by_name(&dups, "triage").unwrap_err();
    assert_eq!(
        err.message(),
        "Multiple queues named \"triage\" found (IDs: 10, 20). Use --id 10 to specify."
    );
}

#[test]
fn reorder_keeps_unlisted_issues_last_in_their_order() {
    let issues = vec![make_issue("Z-9"), make_issue("A-2"), make_issue("Y-8"), make_issue("A-1")];
    let queue_keys = vec!["A-1".into(), "A-2".into()];
    let result = reorder_by_queue_position(issues, &queue_keys);
    let keys: Vec<&str> = result.iter().map(|i| i.key.as_str()).collect();
    assert_eq!(keys, vec!["A-1", "A-2", "Z-9", "Y-8"]);
}

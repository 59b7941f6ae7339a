use jr::error::JrError;
use jr::types::jira::Resolution;
use jr::workflow::{
    NONE_LABEL, build_resolution_prompt, optional_prompt_default_index, refuse_noninteractive,
    resolve_interactive_choice, resolve_resolution_by_name, select_prompt_base_names,
};

fn sample_resolutions() -> Vec<Resolution> {
    vec![
        Resolution {
            id: Some("10000".into()),
            name: "Done".into(),
            description: None,
        },
        Resolution {
            id: Some("10001".into()),
            name: "Won't Do".into(),
            description: None,
        },
        Resolution {
            id: Some("10002".into()),
            name: "Duplicate".into(),
            description: None,
        },
        Resolution {
            id: Some("10003".into()),
            name: "Cannot Reproduce".into(),
            description: None,
        },
    ]
}

#[test]
fn resolve_resolution_exact_match_returns_it() {
    let r = resolve_resolution_by_name(&sample_resolutions(), "Done").unwrap();
    assert_eq!(r.name, "Done");
}

#[test]
fn resolve_resolution_case_insensitive_exact() {
    let r = resolve_resolution_by_name(&sample_resolutions(), "done").unwrap();
    assert_eq!(r.name, "Done");
}

#[test]
fn resolve_resolution_unique_substring_errors_as_ambiguous() {
    let err = resolve_resolution_by_name(&sample_resolutions(), "Dup").unwrap_err();
    assert!(
        matches!(err, JrError::UserError(_)),
        "expected UserError variant, got: {err:?}"
    );
    let root = err.message().to_lowercase();
    assert!(root.contains("ambiguous"), "expected ambiguous error, got: {err:?}");
    assert!(
        root.contains("duplicate"),
        "error should list the matching candidate, got: {err:?}"
    );
}

#[test]
fn resolve_resolution_ambiguous_substring_errors_with_exit_64() {
    let err = resolve_resolution_by_name(&sample_resolutions(), "o").unwrap_err();
    let root = err.message().to_lowercase();
    assert!(
        root.contains("ambiguous") || root.contains("multiple"),
        "expected ambiguous error, got: {err:?}"
    );
    assert!(
        matches!(err, JrError::UserError(_)),
        "expected UserError variant, got: {err:?}"
    );
    assert_eq!(err.exit_code(), 64);
}

#[test]
fn resolve_resolution_no_match_errors_with_candidates() {
    let err = resolve_resolution_by_name(&sample_resolutions(), "nonexistent").unwrap_err();
    let msg = err.message();
    assert!(msg.contains("Done"), "error should list candidates: {msg}");
    assert!(msg.contains("Duplicate"), "error should list candidates: {msg}");
}

#[test]
fn resolve_resolution_exact_multiple_lists_only_duplicates() {
    let resolutions = vec![
        Resolution {
            id: Some("10000".into()),
            name: "Done".into(),
            description: None,
        },
        Resolution {
            id: Some("10100".into()),
            name: "done".into(),
            description: None,
        },
        Resolution {
            id: Some("10001".into()),
            name: "Won't Do".into(),
            description: None,
        },
    ];

    let err = resolve_resolution_by_name(&resolutions, "Done").unwrap_err();
    let msg = err.message();
    assert!(
        msg.contains("Done") && msg.contains("done"),
        "error should list both duplicates: {msg}"
    );
    assert!(
        msg.contains("id=10000") && msg.contains("id=10100"),
        "error should include ids to disambiguate same-name entries: {msg}"
    );
    assert!(
        !msg.contains("Won't Do"),
        "error must NOT list non-duplicate entries, but did: {msg}"
    );
}

#[test]
fn resolve_resolution_messages_are_exact() {
    let err = resolve_resolution_by_name(&sample_resolutions(), "Dup").unwrap_err();
    assert_eq!(err.message(), "Ambiguous resolution \"Dup\". Matches: Duplicate");
    let err = resolve_resolution_by_name(&sample_resolutions(), "zzz").unwrap_err();
    assert_eq!(
        err.message(),
        "No resolution matching \"zzz\". Available: Done, Won't Do, Duplicate, Cannot Reproduce"
    );
    let dups = vec![
        Resolution { id: Some("1".into()), name: "Done".into(), description: None },
        Resolution { id: None, name: "DONE".into(), description: None },
    ];
    let err = resolve_resolution_by_name(&dups, "done").unwrap_err();
    assert_eq!(
        err.message(),
        "Multiple resolutions named \"done\" exist: Done (id=1), DONE"
    );
}

#[test]
fn resolve_resolution_returns_the_first_of_the_exact_name() {
    let rs = vec![
        Resolution { id: Some("1".into()), name: "Fixed".into(), description: Some("a".into()) },
        Resolution { id: Some("2".into()), name: "Other".into(), description: None },
    ];
    let r = resolve_resolution_by_name(&rs, "FIXED").unwrap();
    assert_eq!(r, rs[0]);
}

#[test]
fn interactive_choice_maps_sentinel_to_none() {
    let opts = build_resolution_prompt(&["Done".to_string(), "Won't Do".to_string()], true);
    assert_eq!(opts, vec!["Done", "Won't Do", NONE_LABEL]);
    assert_eq!(resolve_interactive_choice(&opts, NONE_LABEL, 0), Some("Done".to_string()));
    assert_eq!(resolve_interactive_choice(&opts, NONE_LABEL, 2), None);
    assert_eq!(resolve_interactive_choice(&opts, NONE_LABEL, 3), None);
}

#[test]
fn required_prompt_has_no_sentinel() {
    let opts = build_resolution_prompt(&["Done".to_string()], false);
    assert_eq!(opts, vec!["Done"]);
}

#[test]
fn noninteractive_refusal_truth_table() {
    assert!(refuse_noninteractive(true, true));
    assert!(refuse_noninteractive(true, false));
    assert!(refuse_noninteractive(false, false));
    assert!(!refuse_noninteractive(false, true));
}

#[test]
fn prompt_base_prefers_transition_values() {
    let allowed = vec!["Fixed".to_string()];
    let instance = vec!["Done".to_string(), "Fixed".to_string()];
    assert_eq!(select_prompt_base_names(&allowed, &instance), &allowed[..]);
    assert_eq!(select_prompt_base_names(&[], &instance), &instance[..]);
}

#[test]
fn optional_default_is_last_entry() {
    assert_eq!(optional_prompt_default_index(3), 2);
    assert_eq!(optional_prompt_default_index(1), 0);
    assert_eq!(optional_prompt_default_index(0), 0);
}

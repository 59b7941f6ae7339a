use jr::cli::{
    check_switch_without_profile_flag, comment_hint, effective_no_input, effective_profile,
    failure_exit_code, is_issue_comment_usage, resolve_effective_limit,
};
use jr::error::JrError;
use jr::jsm_create::{FieldValueKind, jsm_adf_empty_omit_guard_applies};

#[test]
fn effective_limit_defaults_to_30() {
    assert_eq!(resolve_effective_limit(None, false), Some(30));
}

#[test]
fn effective_limit_respects_explicit_limit() {
    assert_eq!(resolve_effective_limit(Some(50), false), Some(50));
}

#[test]
fn effective_limit_all_returns_none() {
    assert_eq!(resolve_effective_limit(None, true), None);
}

#[test]
fn effective_limit_all_wins_over_explicit_limit() {
    assert_eq!(resolve_effective_limit(Some(5), true), None);
}

#[test]
fn test_adf_empty_guard_fires_only_on_bare_form_not_hinted_jsm() {
    assert!(
        jsm_adf_empty_omit_guard_applies(None),
        "the bare form (kind: None) must satisfy the empty-omit guard's gate"
    );
    assert!(
        !jsm_adf_empty_omit_guard_applies(Some(FieldValueKind::SelectOption)),
        "a ':option'-hinted value must bypass the empty-omit guard"
    );
    assert!(
        !jsm_adf_empty_omit_guard_applies(Some(FieldValueKind::Id)),
        "a ':id'-hinted value must bypass the empty-omit guard"
    );
    assert!(
        !jsm_adf_empty_omit_guard_applies(Some(FieldValueKind::Name)),
        "a ':name'-hinted value must bypass the empty-omit guard"
    );
    assert!(
        !jsm_adf_empty_omit_guard_applies(Some(FieldValueKind::Asset)),
        "an ':asset'-hinted value must bypass the empty-omit guard"
    );
}

#[test]
fn no_input_follows_terminal_and_overrides() {
    assert!(effective_no_input(true, true, false, false));
    assert!(effective_no_input(false, false, false, false));
    assert!(!effective_no_input(false, true, false, false));
    assert!(!effective_no_input(false, false, true, false));
    assert!(!effective_no_input(false, false, false, true));
}

#[test]
fn subcommand_profile_falls_back_to_global() {
    assert_eq!(effective_profile(Some("a".into()), Some("b".into())), Some("a".into()));
    assert_eq!(effective_profile(None, Some("b".into())), Some("b".into()));
    assert_eq!(effective_profile(None, None), None);
}

#[test]
fn auth_switch_refuses_global_profile_flag() {
    assert!(check_switch_without_profile_flag(false).is_ok());
    let e = check_switch_without_profile_flag(true).unwrap_err();
    assert_eq!(e.exit_code(), 64);
    assert!(e.message().starts_with("--profile is not valid for 'auth switch'."));
}

#[test]
fn failure_exit_codes() {
    assert_eq!(failure_exit_code(Some(&JrError::UserError("x".into()))), 64);
    assert_eq!(failure_exit_code(Some(&JrError::Interrupted)), 130);
    assert_eq!(failure_exit_code(None), 1);
}

#[test]
fn comment_subcommand_hints() {
    assert!(is_issue_comment_usage("Usage: jr issue comment <COMMAND>"));
    assert!(!is_issue_comment_usage("Usage: jr issue view <KEY>"));
    assert_eq!(
        comment_hint(Some("LS")),
        vec!["error: to list all comments, use `jr issue comments` (plural)"]
    );
    let lines = comment_hint(Some("PROJ-1"));
    assert_eq!(lines.len(), 2);
    assert_eq!(lines[0], "error: use `jr issue comment add` instead");
}

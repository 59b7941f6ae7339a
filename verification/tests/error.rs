use jr::error::{API_TOKEN_EXPIRY_HINT, JrError};

#[test]
fn config_error_exit_code() {
    assert_eq!(JrError::ConfigError("test".into()).exit_code(), 78);
}

#[test]
fn user_error_exit_code() {
    assert_eq!(JrError::UserError("test".into()).exit_code(), 64);
}

#[test]
fn internal_error_exit_code_is_one() {
    assert_eq!(JrError::Internal("bug".into()).exit_code(), 1);
}

#[test]
fn internal_error_display_passthrough() {
    assert_eq!(
        JrError::Internal("Internal error: x not found".into()).message(),
        "Internal error: x not found"
    );
}

#[test]
fn config_error_display_no_prefix() {
    assert_eq!(
        JrError::ConfigError("No board_id configured.".into()).message(),
        "No board_id configured."
    );
}

#[test]
fn user_error_display_passthrough() {
    assert_eq!(
        JrError::UserError("Invalid selection".into()).message(),
        "Invalid selection"
    );
}

#[test]
fn insufficient_scope_exit_code() {
    assert_eq!(
        JrError::InsufficientScope {
            message: "Unauthorized; scope does not match".into(),
            required_scope: None,
        }
        .exit_code(),
        2
    );
}

#[test]
fn deadline_exceeded_exit_code_is_124() {
    assert_eq!(
        JrError::DeadlineExceeded {
            remaining_ms: 0,
            message: "test".into()
        }
        .exit_code(),
        124
    );
}

#[test]
fn deadline_exceeded_display_format() {
    assert_eq!(
        JrError::DeadlineExceeded {
            remaining_ms: 0,
            message: "Caller-supplied deadline already expired at send entry".into()
        }
        .message(),
        "Deadline exceeded: Caller-supplied deadline already expired at send entry"
    );
}

#[test]
fn insufficient_scope_display_includes_workarounds() {
    let err = JrError::InsufficientScope {
        message: "Unauthorized; scope does not match".into(),
        required_scope: None,
    };
    let s = err.message();
    assert!(s.contains("Insufficient token scope"), "got: {s}");
    assert!(
        s.contains("Unauthorized; scope does not match"),
        "raw message should be included: {s}"
    );
    assert!(s.contains("write:jira-work"), "workaround missing: {s}");
    assert!(s.contains("OAuth 2.0"), "workaround missing: {s}");
    assert!(
        s.contains("github.com/Zious11/jira-cli/issues/185"),
        "issue link missing: {s}"
    );
}

#[test]
fn test_insufficient_scope_display_uses_required_scope_when_some() {
    let err = JrError::InsufficientScope {
        message: "Unauthorized; scope does not match".into(),
        required_scope: Some("write:servicedesk-request".into()),
    };
    let s = err.message();
    assert!(
        s.contains("write:servicedesk-request"),
        "Display should contain the call-site-supplied scope name; got: {s}"
    );
    assert!(
        !s.contains("write:jira-work"),
        "Display should NOT contain the fallback scope when required_scope is Some; got: {s}"
    );
}

#[test]
fn test_insufficient_scope_display_empty_some_falls_back() {
    let err = JrError::InsufficientScope {
        message: "Unauthorized; scope does not match".into(),
        required_scope: Some(String::new()),
    };
    let s = err.message();
    assert!(
        s.contains("write:jira-work"),
        "Display should fall back to write:jira-work when required_scope is Some(empty); got: {s}"
    );
}

#[test]
fn test_api_token_expiry_hint_contains_required_text() {
    assert!(
        API_TOKEN_EXPIRY_HINT.contains("expired or revoked"),
        "API_TOKEN_EXPIRY_HINT must contain 'expired or revoked'; got: {API_TOKEN_EXPIRY_HINT:?}"
    );
    assert!(
        API_TOKEN_EXPIRY_HINT.contains("id.atlassian.com/manage-profile/security/api-tokens"),
        "API_TOKEN_EXPIRY_HINT must contain the api-tokens management URL; got: {API_TOKEN_EXPIRY_HINT:?}"
    );
    assert!(
        API_TOKEN_EXPIRY_HINT.contains("jr auth login"),
        "API_TOKEN_EXPIRY_HINT must contain 'jr auth login'; got: {API_TOKEN_EXPIRY_HINT:?}"
    );
}

#[test]
fn test_api_token_expiry_hint_excludes_oauth_scope_language() {
    assert!(
        !API_TOKEN_EXPIRY_HINT.contains("write:servicedesk-request"),
        "API_TOKEN_EXPIRY_HINT must NOT contain OAuth scope 'write:servicedesk-request'; got: {API_TOKEN_EXPIRY_HINT:?}"
    );
    assert!(
        !API_TOKEN_EXPIRY_HINT.contains("jr auth refresh"),
        "API_TOKEN_EXPIRY_HINT must NOT contain 'jr auth refresh'; got: {API_TOKEN_EXPIRY_HINT:?}"
    );
}

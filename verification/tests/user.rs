use jr::error::JrError;
use jr::types::jira::User;
use jr::user::{format_active, format_user_row, user_detail_rows, user_list_rows, view_user_error};

#[test]
fn row_shows_display_name_email_and_id() {
    let user = User {
        account_id: "acc-1".into(),
        display_name: "Alice".into(),
        email_address: Some("alice@acme.io".into()),
        active: Some(true),
    };
    let row = format_user_row(&user);
    assert_eq!(row[0], "Alice");
    assert_eq!(row[1], "alice@acme.io");
    assert!(row[2].contains('✓'));
    assert_eq!(row[3], "acc-1");
}

#[test]
fn row_renders_dash_for_missing_email() {
    let user = User {
        account_id: "acc-2".into(),
        display_name: "Privacy User".into(),
        email_address: None,
        active: Some(true),
    };
    let row = format_user_row(&user);
    assert_eq!(row[1], "—");
}

#[test]
fn active_formatter_handles_missing() {
    assert_eq!(format_active(None), "—");
}

#[test]
fn active_formatter_marks_are_plain_or_coloured() {
    let yes = format_active(Some(true));
    assert!(yes == "✓" || yes == "\u{1b}[32m✓\u{1b}[0m", "got {yes:?}");
    let no = format_active(Some(false));
    assert!(no == "✗" || no == "\u{1b}[31m✗\u{1b}[0m", "got {no:?}");
}

#[test]
fn list_rows_follow_users() {
    let users = vec![
        User { account_id: "a".into(), display_name: "A".into(), email_address: None, active: None },
        User { account_id: "b".into(), display_name: "B".into(), email_address: None, active: None },
    ];
    let rows = user_list_rows(&users);
    assert_eq!(rows.len(), 2);
    assert_eq!(rows[1], vec!["B", "—", "—", "b"]);
}

#[test]
fn detail_rows_label_each_field() {
    let user = User {
        account_id: "acc-9".into(),
        display_name: "Zed".into(),
        email_address: Some("z@x.io".into()),
        active: None,
    };
    let rows = user_detail_rows(&user);
    assert_eq!(rows[0], vec!["Account ID", "acc-9"]);
    assert_eq!(rows[1], vec!["Display Name", "Zed"]);
    assert_eq!(rows[2], vec!["Email", "z@x.io"]);
    assert_eq!(rows[3], vec!["Active", "—"]);
}

#[test]
fn view_error_maps_missing_account_to_user_error() {
    let e = view_user_error("abc", JrError::ApiError { status: 404, message: "x".into() });
    assert_eq!(e.message(), "User with accountId 'abc' not found.");
    assert_eq!(e.exit_code(), 64);
    let e = view_user_error("abc", JrError::ApiError { status: 400, message: "x".into() });
    assert_eq!(e.exit_code(), 64);
    let e = view_user_error("abc", JrError::ApiError { status: 500, message: "boom".into() });
    assert_eq!(e.message(), "API error (500): boom");
    assert_eq!(e.exit_code(), 1);
}

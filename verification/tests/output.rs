use jr::output::{render_table, sanitize_env_display};

#[test]
fn test_render_table_with_data() {
    let headers = &["Key", "Summary"];
    let rows = vec![vec!["FOO-1".into(), "Fix bug".into()]];
    let output = render_table(headers, &rows);
    assert!(output.contains("FOO-1"));
    assert!(output.contains("Fix bug"));
}

#[test]
fn test_sanitize_env_display_passes_through_ordinary_string() {
    assert_eq!(sanitize_env_display("prod"), "prod");
    assert_eq!(
        sanitize_env_display("sandbox-eu-west-1"),
        "sandbox-eu-west-1"
    );
}

#[test]
fn test_sanitize_env_display_empty_string_passes_through() {
    assert_eq!(sanitize_env_display(""), "");
}

#[test]
fn test_sanitize_env_display_strips_ascii_control_chars() {
    let hostile = "pr\rod\n\t\u{0}end\u{7f}";
    let got = sanitize_env_display(hostile);
    assert_eq!(got, "prodend");
    assert!(
        !got.chars().any(|c| (c as u32) <= 0x1F || c as u32 == 0x7F),
        "no raw control bytes may reach the terminal: {got:?}"
    );
}

#[test]
fn test_sanitize_env_display_strips_ansi_csi_escape_sequences() {
    let hostile = "\u{1b}[31mRED\u{1b}[0m";
    let got = sanitize_env_display(hostile);
    assert_eq!(got, "RED");
    assert!(!got.contains('\u{1b}'), "raw ESC byte must not survive");
    assert!(
        !got.contains('['),
        "the CSI sequence's bracket/param bytes must not survive as \
         literal text: {got:?}"
    );
}

#[test]
fn test_sanitize_env_display_strips_ansi_osc_escape_sequences() {
    let hostile = "before\u{1b}]0;evil-title\u{7}after";
    let got = sanitize_env_display(hostile);
    assert_eq!(got, "beforeafter");
}

#[test]
fn test_sanitize_env_display_exactly_at_cap_not_truncated() {
    let exactly_40 = "a".repeat(40);
    let got = sanitize_env_display(&exactly_40);
    assert_eq!(got, exactly_40);
    assert_eq!(got.chars().count(), 40);
}

#[test]
fn test_sanitize_env_display_over_cap_truncated_with_marker() {
    let over_cap = "b".repeat(41);
    let got = sanitize_env_display(&over_cap);
    assert_eq!(got, format!("{}\u{2026}", "b".repeat(40)));
    assert_eq!(got.chars().count(), 41);
    assert!(got.ends_with('\u{2026}'));
}

#[test]
fn test_sanitize_env_display_far_over_cap_truncated_with_marker() {
    let very_long = "c".repeat(500);
    let got = sanitize_env_display(&very_long);
    assert_eq!(got.chars().count(), 41);
    assert_eq!(got, format!("{}\u{2026}", "c".repeat(40)));
}

#[test]
fn test_sanitize_env_display_strips_then_caps_composed() {
    let hostile = format!("{}\u{1b}[31m\r{}", "x".repeat(25), "x".repeat(25));
    let got = sanitize_env_display(&hostile);
    assert_eq!(got, format!("{}\u{2026}", "x".repeat(40)));
}

#[test]
fn render_table_starts_with_top_border() {
    let output = render_table(&["Key"], &[]);
    assert!(output.starts_with('\u{250c}'), "got {output:?}");
    let empty = render_table(&[], &[]);
    assert!(empty.starts_with('\u{250c}'), "got {empty:?}");
}

#[test]
fn render_table_gives_every_row_a_line_between_the_borders() {
    let rows = vec![
        vec!["PROJ-1".to_string(), "First".to_string()],
        vec!["PROJ-2".to_string(), "Second".to_string()],
        vec!["PROJ-3".to_string(), "Third".to_string()],
    ];
    let output = render_table(&["Key", "Summary"], &rows);
    let lines: Vec<&str> = output.split('\n').collect();
    assert!(lines.len() >= rows.len() + 3, "got {output:?}");
    assert!(lines[0].starts_with('\u{250c}'), "got {output:?}");
    assert!(lines[lines.len() - 1].starts_with('\u{2514}'), "got {output:?}");
    for key in ["PROJ-1", "PROJ-2", "PROJ-3"] {
        assert!(output.contains(key), "missing {key} in {output:?}");
    }
}

#[test]
fn render_table_without_rows_still_has_both_borders() {
    let output = render_table(&["Key"], &[]);
    let lines: Vec<&str> = output.split('\n').collect();
    assert!(lines.len() >= 3, "got {output:?}");
    assert!(lines[lines.len() - 1].starts_with('\u{2514}'), "got {output:?}");
}

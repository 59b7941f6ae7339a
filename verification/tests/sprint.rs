use jr::queue::queue_rows;
use jr::sprint::{
    check_sprint_issue_count, is_done, no_active_sprint_message, not_scrum_board_message, sprint_rows,
};
use jr::transition::{KeyOutcome, bulk_key_outcomes};
use jr::types::jira::{Issue, IssueFields, Sprint, Status, StatusCategory};
use jr::types::jsm::Queue;

#[test]
fn sprint_issue_count_limit() {
    assert!(check_sprint_issue_count(50).is_ok());
    assert_eq!(
        check_sprint_issue_count(51).unwrap_err(),
        "Too many issues (got 51). Maximum is 50 per operation."
    );
}

#[test]
fn sprint_messages() {
    assert_eq!(no_active_sprint_message(7), "No active sprint found for board 7.");
    assert_eq!(
        not_scrum_board_message(7, "kanban"),
        "Sprint commands are only available for scrum boards. Board 7 is a kanban board."
    );
}

#[test]
fn sprint_list_rows() {
    let sprints = vec![
        Sprint { id: 3, name: "S3".into(), state: Some("active".into()), start_date: None, end_date: None },
        Sprint { id: 4, name: "S4".into(), state: None, start_date: None, end_date: Some("2024-01-02".into()) },
    ];
    let rows = sprint_rows(&sprints);
    assert_eq!(rows[0], vec!["3", "active", "S3", "-"]);
    assert_eq!(rows[1], vec!["4", "", "S4", "2024-01-02"]);
}

#[test]
fn queue_list_rows() {
    let queues = vec![
        Queue { id: "1".into(), name: "Triage".into(), jql: None, fields: None, issue_count: Some(12) },
        Queue { id: "2".into(), name: "Other".into(), jql: None, fields: None, issue_count: None },
    ];
    let rows = queue_rows(&queues);
    assert_eq!(rows[0], vec!["Triage", "12"]);
    assert_eq!(rows[1], vec!["Other", "\u{2014}"]);
}

#[test]
fn bulk_outcomes_per_key() {
    let keys = vec!["A-1".to_string(), "A-2".to_string(), "A-3".to_string()];
    let processed = vec!["A-1".to_string()];
    let failed = vec![("A-2".to_string(), "no permission".to_string())];
    let out = bulk_key_outcomes(&keys, &processed, &failed);
    assert!(matches!(out[0], KeyOutcome::Success));
    assert!(matches!(&out[1], KeyOutcome::Error(s) if s == "no permission"));
    assert!(matches!(out[2], KeyOutcome::Inaccessible));
}

fn issue_with_category(key: Option<&str>) -> Issue {
    Issue {
        key: "A-1".into(),
        fields: IssueFields {
            status: Some(Status {
                name: "Whatever".into(),
                status_category: key.map(|k| StatusCategory { name: k.into(), key: k.into() }),
            }),
            ..IssueFields::default()
        },
    }
}

#[test]
fn done_means_the_done_category() {
    assert!(is_done(&issue_with_category(Some("done"))));
    assert!(!is_done(&issue_with_category(Some("indeterminate"))));
    assert!(!is_done(&issue_with_category(Some("Done"))));
    assert!(!is_done(&issue_with_category(None)));
    assert!(!is_done(&Issue::default()));
}

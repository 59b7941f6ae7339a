use std::collections::HashMap as StdHashMap;
use jr::issue_list::{
    FilterOptions, build_filter_clauses, build_jql_base_parts, extract_unique_status_names,
    resolve_show_points,
};
use jr::types::jira::{IssueTypeWithStatuses, StatusMetadata};

#[test]
fn resolve_show_points_flag_false() {
    assert_eq!(resolve_show_points(false, Some("customfield_10031")), None);
    assert_eq!(resolve_show_points(false, None), None);
}

#[test]
fn resolve_show_points_flag_true_config_present() {
    assert_eq!(
        resolve_show_points(true, Some("customfield_10031")),
        Some("customfield_10031")
    );
}

#[test]
fn resolve_show_points_flag_true_config_missing() {
    assert_eq!(resolve_show_points(true, None), None);
}

#[test]
fn build_jql_parts_assignee_me() {
    let parts = build_filter_clauses(FilterOptions {
        assignee_jql: Some("currentUser()"),
        reporter_jql: None,
        status: None,
        team_clause: None,
        recent: None,
        updated_recent: None,
        open: false,
        asset_clause: None,
        component_clauses: &[],
        created_after_clause: None,
        created_before_clause: None,
        updated_after_clause: None,
        updated_before_clause: None,
    });
    assert_eq!(parts, vec!["assignee = currentUser()"]);
}

#[test]
fn build_jql_parts_reporter_account_id() {
    let parts = build_filter_clauses(FilterOptions {
        assignee_jql: None,
        reporter_jql: Some("5b10ac8d82e05b22cc7d4ef5"),
        status: None,
        team_clause: None,
        recent: None,
        updated_recent: None,
        open: false,
        asset_clause: None,
        component_clauses: &[],
        created_after_clause: None,
        created_before_clause: None,
        updated_after_clause: None,
        updated_before_clause: None,
    });
    assert_eq!(parts, vec!["reporter = 5b10ac8d82e05b22cc7d4ef5"]);
}

#[test]
fn build_jql_parts_recent() {
    let parts = build_filter_clauses(FilterOptions {
        assignee_jql: None,
        reporter_jql: None,
        status: None,
        team_clause: None,
        recent: Some("7d"),
        updated_recent: None,
        open: false,
        asset_clause: None,
        component_clauses: &[],
        created_after_clause: None,
        created_before_clause: None,
        updated_after_clause: None,
        updated_before_clause: None,
    });
    assert_eq!(parts, vec!["created >= -7d"]);
}

#[test]
fn build_jql_parts_all_filters() {
    let parts = build_filter_clauses(FilterOptions {
        assignee_jql: Some("currentUser()"),
        reporter_jql: Some("currentUser()"),
        status: Some("In Progress"),
        team_clause: Some(r#"customfield_10001 = "uuid-123""#),
        recent: Some("30d"),
        updated_recent: None,
        open: false,
        asset_clause: None,
        component_clauses: &[],
        created_after_clause: None,
        created_before_clause: None,
        updated_after_clause: None,
        updated_before_clause: None,
    });
    assert_eq!(parts.len(), 5);
    assert!(parts.contains(&"assignee = currentUser()".to_string()));
    assert!(parts.contains(&"reporter = currentUser()".to_string()));
    assert!(parts.contains(&"status = \"In Progress\"".to_string()));
    assert!(parts.contains(&r#"customfield_10001 = "uuid-123""#.to_string()));
    assert!(parts.contains(&"created >= -30d".to_string()));
}

#[test]
fn build_jql_parts_empty() {
    let parts = build_filter_clauses(FilterOptions {
        assignee_jql: None,
        reporter_jql: None,
        status: None,
        team_clause: None,
        recent: None,
        updated_recent: None,
        open: false,
        asset_clause: None,
        component_clauses: &[],
        created_after_clause: None,
        created_before_clause: None,
        updated_after_clause: None,
        updated_before_clause: None,
    });
    assert!(parts.is_empty());
}

#[test]
fn build_jql_parts_jql_plus_status_compose() {
    let filter = build_filter_clauses(FilterOptions {
        assignee_jql: None,
        reporter_jql: None,
        status: Some("Done"),
        team_clause: None,
        recent: None,
        updated_recent: None,
        open: false,
        asset_clause: None,
        component_clauses: &[],
        created_after_clause: None,
        created_before_clause: None,
        updated_after_clause: None,
        updated_before_clause: None,
    });
    let mut all_parts = vec!["type = Bug".to_string()];
    all_parts.extend(filter);
    let jql = all_parts.join(" AND ");
    assert_eq!(jql, r#"type = Bug AND status = "Done""#);
}

#[test]
fn build_jql_parts_status_escaping() {
    let parts = build_filter_clauses(FilterOptions {
        assignee_jql: None,
        reporter_jql: None,
        status: Some(r#"He said "hi" \o/"#),
        team_clause: None,
        recent: None,
        updated_recent: None,
        open: false,
        asset_clause: None,
        component_clauses: &[],
        created_after_clause: None,
        created_before_clause: None,
        updated_after_clause: None,
        updated_before_clause: None,
    });
    assert_eq!(parts, vec![r#"status = "He said \"hi\" \\o/""#.to_string()]);
}

#[test]
fn build_jql_parts_open() {
    let parts = build_filter_clauses(FilterOptions {
        assignee_jql: None,
        reporter_jql: None,
        status: None,
        team_clause: None,
        recent: None,
        updated_recent: None,
        open: true,
        asset_clause: None,
        component_clauses: &[],
        created_after_clause: None,
        created_before_clause: None,
        updated_after_clause: None,
        updated_before_clause: None,
    });
    assert_eq!(parts, vec!["statusCategory != Done"]);
}

#[test]
fn build_jql_parts_open_with_assignee() {
    let parts = build_filter_clauses(FilterOptions {
        assignee_jql: Some("currentUser()"),
        reporter_jql: None,
        status: None,
        team_clause: None,
        recent: None,
        updated_recent: None,
        open: true,
        asset_clause: None,
        component_clauses: &[],
        created_after_clause: None,
        created_before_clause: None,
        updated_after_clause: None,
        updated_before_clause: None,
    });
    assert_eq!(parts.len(), 2);
    assert!(parts.contains(&"assignee = currentUser()".to_string()));
    assert!(parts.contains(&"statusCategory != Done".to_string()));
}

#[test]
fn build_jql_parts_all_filters_with_open() {
    let parts = build_filter_clauses(FilterOptions {
        assignee_jql: Some("currentUser()"),
        reporter_jql: Some("currentUser()"),
        status: None,
        team_clause: Some(r#"customfield_10001 = "uuid-123""#),
        recent: Some("30d"),
        updated_recent: None,
        open: true,
        asset_clause: None,
        component_clauses: &[],
        created_after_clause: None,
        created_before_clause: None,
        updated_after_clause: None,
        updated_before_clause: None,
    });
    assert_eq!(parts.len(), 5);
    assert!(parts.contains(&"assignee = currentUser()".to_string()));
    assert!(parts.contains(&"reporter = currentUser()".to_string()));
    assert!(parts.contains(&"statusCategory != Done".to_string()));
    assert!(parts.contains(&r#"customfield_10001 = "uuid-123""#.to_string()));
    assert!(parts.contains(&"created >= -30d".to_string()));
}

#[test]
fn build_jql_parts_asset_clause() {
    let clause = r#""Client" IN aqlFunction("Key = \"CUST-5\"")"#;
    let parts = build_filter_clauses(FilterOptions {
        assignee_jql: None,
        reporter_jql: None,
        status: None,
        team_clause: None,
        recent: None,
        updated_recent: None,
        open: false,
        asset_clause: Some(clause),
        component_clauses: &[],
        created_after_clause: None,
        created_before_clause: None,
        updated_after_clause: None,
        updated_before_clause: None,
    });
    assert_eq!(parts, vec![clause.to_string()]);
}

#[test]
fn build_jql_parts_asset_with_assignee() {
    let clause = r#""Client" IN aqlFunction("Key = \"CUST-5\"")"#;
    let parts = build_filter_clauses(FilterOptions {
        assignee_jql: Some("currentUser()"),
        reporter_jql: None,
        status: None,
        team_clause: None,
        recent: None,
        updated_recent: None,
        open: false,
        asset_clause: Some(clause),
        component_clauses: &[],
        created_after_clause: None,
        created_before_clause: None,
        updated_after_clause: None,
        updated_before_clause: None,
    });
    assert_eq!(parts.len(), 2);
    assert!(parts.contains(&"assignee = currentUser()".to_string()));
    assert!(parts.contains(&clause.to_string()));
}

#[test]
fn test_bc_2_1_007_build_filter_clauses_component_immediately_after_asset() {
    let asset_clause = r#""Client" IN aqlFunction("Key = \"CUST-5\"")"#;
    let component_clauses = vec![
        "component in (10001)".to_string(),
        "(component not in (10002) OR component is EMPTY)".to_string(),
    ];
    let parts = build_filter_clauses(FilterOptions {
        assignee_jql: Some("currentUser()"),
        reporter_jql: None,
        status: None,
        team_clause: None,
        recent: None,
        updated_recent: None,
        open: false,
        asset_clause: Some(asset_clause),
        component_clauses: &component_clauses,
        created_after_clause: Some("created >= \"2026-03-01\""),
        created_before_clause: None,
        updated_after_clause: None,
        updated_before_clause: None,
    });
    assert_eq!(
        parts,
        vec![
            "assignee = currentUser()".to_string(),
            asset_clause.to_string(),
            "component in (10001)".to_string(),
            "(component not in (10002) OR component is EMPTY)".to_string(),
            "created >= \"2026-03-01\"".to_string(),
        ]
    );
}

#[test]
fn test_bc_2_1_007_build_filter_clauses_updated_recent_immediately_after_recent_before_asset() {
    let asset_clause = r#""Client" IN aqlFunction("Key = \"CUST-5\"")"#;
    let parts = build_filter_clauses(FilterOptions {
        assignee_jql: None,
        reporter_jql: None,
        status: None,
        team_clause: None,
        recent: Some("7d"),
        updated_recent: Some("60d"),
        open: false,
        asset_clause: Some(asset_clause),
        component_clauses: &[],
        created_after_clause: None,
        created_before_clause: None,
        updated_after_clause: None,
        updated_before_clause: None,
    });
    assert_eq!(
        parts,
        vec![
            "created >= -7d".to_string(),
            "updated >= -60d".to_string(),
            asset_clause.to_string(),
        ]
    );
}

#[test]
fn build_jql_parts_created_after_clause() {
    let parts = build_filter_clauses(FilterOptions {
        assignee_jql: None,
        reporter_jql: None,
        status: None,
        team_clause: None,
        recent: None,
        updated_recent: None,
        open: false,
        asset_clause: None,
        component_clauses: &[],
        created_after_clause: Some("created >= \"2026-03-18\""),
        created_before_clause: None,
        updated_after_clause: None,
        updated_before_clause: None,
    });
    assert_eq!(parts, vec!["created >= \"2026-03-18\""]);
}

#[test]
fn build_jql_parts_updated_after_and_before_clauses() {
    let parts = build_filter_clauses(FilterOptions {
        assignee_jql: None,
        reporter_jql: None,
        status: None,
        team_clause: None,
        recent: None,
        updated_recent: None,
        open: false,
        asset_clause: None,
        component_clauses: &[],
        created_after_clause: None,
        created_before_clause: None,
        updated_after_clause: Some("updated >= \"2026-03-01\""),
        updated_before_clause: Some("updated < \"2026-04-01\""),
    });
    assert_eq!(parts.len(), 2);
    assert!(parts.contains(&"updated >= \"2026-03-01\"".to_string()));
    assert!(parts.contains(&"updated < \"2026-04-01\"".to_string()));
}

#[test]
fn build_jql_parts_created_date_range() {
    let parts = build_filter_clauses(FilterOptions {
        assignee_jql: None,
        reporter_jql: None,
        status: None,
        team_clause: None,
        recent: None,
        updated_recent: None,
        open: false,
        asset_clause: None,
        component_clauses: &[],
        created_after_clause: Some("created >= \"2026-03-01\""),
        created_before_clause: Some("created < \"2026-04-01\""),
        updated_after_clause: None,
        updated_before_clause: None,
    });
    assert_eq!(parts.len(), 2);
    assert!(parts.contains(&"created >= \"2026-03-01\"".to_string()));
    assert!(parts.contains(&"created < \"2026-04-01\"".to_string()));
}

#[test]
fn build_jql_base_parts_jql_with_project() {
    let (parts, order_by) = build_jql_base_parts("priority = Highest", Some("PROJ"));
    assert_eq!(
        parts,
        vec![
            "project = \"PROJ\"".to_string(),
            "(priority = Highest)".to_string(),
        ]
    );
    assert_eq!(order_by, "updated DESC");
}

#[test]
fn build_jql_base_parts_jql_without_project() {
    let (parts, order_by) = build_jql_base_parts("priority = Highest", None);
    assert_eq!(parts, vec!["(priority = Highest)".to_string()]);
    assert_eq!(order_by, "updated DESC");
}

#[test]
fn build_jql_base_parts_jql_with_order_by_and_project() {
    let (parts, order_by) =
        build_jql_base_parts("priority = Highest ORDER BY created DESC", Some("PROJ"));
    assert_eq!(
        parts,
        vec![
            "project = \"PROJ\"".to_string(),
            "(priority = Highest)".to_string(),
        ]
    );
    assert_eq!(order_by, "updated DESC");
}

#[test]
fn build_jql_base_parts_jql_or_with_project_preserves_scope() {
    let (parts, order_by) =
        build_jql_base_parts("priority = Highest OR status = Done", Some("PROJ"));
    assert_eq!(
        parts,
        vec![
            "project = \"PROJ\"".to_string(),
            "(priority = Highest OR status = Done)".to_string(),
        ]
    );
    assert_eq!(order_by, "updated DESC");
}

#[test]
fn build_jql_base_parts_jql_order_by_only_with_project() {
    let (parts, order_by) = build_jql_base_parts("ORDER BY created DESC", Some("PROJ"));
    assert_eq!(parts, vec!["project = \"PROJ\"".to_string()]);
    assert_eq!(order_by, "updated DESC");
}

#[test]
fn build_jql_base_parts_jql_order_by_only_no_project() {
    let (parts, order_by) = build_jql_base_parts("ORDER BY created DESC", None);
    assert!(parts.is_empty());
    assert_eq!(order_by, "updated DESC");
}

#[test]
fn extract_unique_status_names_deduplicates_and_sorts() {
        let issue_types = vec![
        IssueTypeWithStatuses {
            id: "1".into(),
            name: "Task".into(),
            subtask: None,
            statuses: vec![
                StatusMetadata {
                    id: "10".into(),
                    name: "To Do".into(),
                    description: None,
                },
                StatusMetadata {
                    id: "20".into(),
                    name: "In Progress".into(),
                    description: None,
                },
                StatusMetadata {
                    id: "30".into(),
                    name: "Done".into(),
                    description: None,
                },
            ],
        },
        IssueTypeWithStatuses {
            id: "2".into(),
            name: "Bug".into(),
            subtask: None,
            statuses: vec![
                StatusMetadata {
                    id: "10".into(),
                    name: "To Do".into(),
                    description: None,
                },
                StatusMetadata {
                    id: "30".into(),
                    name: "Done".into(),
                    description: None,
                },
            ],
        },
    ];
    let names = extract_unique_status_names(&issue_types);
    assert_eq!(names, vec!["Done", "In Progress", "To Do"]);
}

#[test]
fn extract_unique_status_names_empty() {
    let names = extract_unique_status_names(&[]);
    assert!(names.is_empty());
}

#[test]
fn test_bc_4_3_001_bare_oid_key_collides_on_shared_oid() {

    let mut resolved: StdHashMap<(String, String), (String, String, String)> =
        StdHashMap::new();

    let oid = "88".to_string();

    resolved.insert(
        ("ws-A".to_string(), oid.clone()),
        ("WS-A-88".into(), "Acme Corp".into(), "Client".into()),
    );

    resolved.insert(
        ("ws-B".to_string(), oid.clone()),
        ("WS-B-88".into(), "Widgets Inc".into(), "Client".into()),
    );

    let (_, label_a, _) = resolved
        .get(&("ws-A".to_string(), oid.clone()))
        .expect("ws-A entry must be present after fix");
    assert_eq!(
        label_a, "Acme Corp",
        "BC-4.3.001: ws-A label 'Acme Corp' must survive the ws-B insert. \
         Composite (workspace_id, oid) key preserves both entries."
    );

    let (_, label_b, _) = resolved
        .get(&("ws-B".to_string(), oid.clone()))
        .expect("ws-B entry must be present after fix");
    assert_eq!(
        label_b, "Widgets Inc",
        "BC-4.3.001: ws-B label must be 'Widgets Inc'"
    );
}

#[test]
fn test_bc_4_3_001_composite_key_preserves_both_workspaces() {

    let mut resolved_fixed: StdHashMap<(String, String), (String, String, String)> =
        StdHashMap::new();

    let oid = "88".to_string();

    resolved_fixed.insert(
        ("ws-A".to_string(), oid.clone()),
        ("WS-A-88".into(), "Acme Corp".into(), "Client".into()),
    );

    resolved_fixed.insert(
        ("ws-B".to_string(), oid.clone()),
        ("WS-B-88".into(), "Widgets Inc".into(), "Client".into()),
    );

    assert_eq!(
        resolved_fixed.len(),
        2,
        "Composite key map must hold two distinct entries"
    );

    let (_, label_a, _) = resolved_fixed
        .get(&("ws-A".to_string(), oid.clone()))
        .expect("ws-A entry must be present");
    assert_eq!(label_a, "Acme Corp");

    let (_, label_b, _) = resolved_fixed
        .get(&("ws-B".to_string(), oid.clone()))
        .expect("ws-B entry must be present");
    assert_eq!(label_b, "Widgets Inc");
}

#[test]
fn test_bc_4_3_001_to_enrich_composite_key_unchanged() {

    let mut to_enrich: StdHashMap<(String, String), ()> = StdHashMap::new();

    to_enrich
        .entry(("ws-A".to_string(), "88".to_string()))
        .or_insert(());
    to_enrich
        .entry(("ws-B".to_string(), "88".to_string()))
        .or_insert(());

    to_enrich
        .entry(("ws-A".to_string(), "88".to_string()))
        .or_insert(());

    assert_eq!(
        to_enrich.len(),
        2,
        "to_enrich must hold exactly 2 unique (wid, oid) pairs; \
         same oid from different workspaces are distinct, duplicates are deduplicated"
    );
    assert!(to_enrich.contains_key(&("ws-A".to_string(), "88".to_string())));
    assert!(to_enrich.contains_key(&("ws-B".to_string(), "88".to_string())));
}

use jr::error::JrError;
use jr::issue_list::{
    BoardScope, ListScope, NO_FILTERS_SPECIFIED_MSG, assemble_list_jql, build_board_base_parts,
    check_base_scope, check_fields_output, check_list_filters, check_updated_recent_scope,
    is_scrum_board, more_results_hint,
    project_not_found_error, resolve_status_name, validate_component_preflight,
};

fn only_updated_recent() -> ListScope {
    ListScope {
        has_project: false,
        has_board: false,
        has_jql: false,
        has_status: false,
        has_team: false,
        has_recent: false,
        has_updated_recent: true,
        open: false,
        has_asset: false,
        has_component: false,
        has_created_after: false,
        has_created_before: false,
        has_updated_after: false,
        has_updated_before: false,
        has_assignee: false,
        has_reporter: false,
    }
}

#[test]
fn updated_recent_alone_is_not_a_scope() {
    let f = only_updated_recent();
    let err = check_updated_recent_scope(&f).unwrap_err();
    assert_eq!(err.message(), NO_FILTERS_SPECIFIED_MSG);
    assert_eq!(err.exit_code(), 64);
    let mut with_board = only_updated_recent();
    with_board.has_board = true;
    assert!(check_updated_recent_scope(&with_board).is_ok());
    assert!(check_base_scope(&with_board, &[]).is_err());
    assert!(check_base_scope(&with_board, &["sprint = 1".to_string()]).is_ok());
    let mut with_project = only_updated_recent();
    with_project.has_project = true;
    assert!(check_updated_recent_scope(&with_project).is_ok());
}

#[test]
fn list_jql_joins_clauses_and_orders() {
    let q = assemble_list_jql(
        vec!["project = \"P\"".to_string()],
        vec!["status = \"Done\"".to_string(), "created >= -7d".to_string()],
        "updated DESC",
    )
    .unwrap();
    assert_eq!(q, "project = \"P\" AND status = \"Done\" AND created >= -7d ORDER BY updated DESC");
    let err = assemble_list_jql(vec![], vec![], "updated DESC").unwrap_err();
    assert!(matches!(err, JrError::UserError(_)));
}

#[test]
fn board_scopes_give_base_parts() {
    let (p, o) = build_board_base_parts(Some("PROJ"), BoardScope::ActiveSprint(42));
    assert_eq!((p, o), (vec!["sprint = 42".to_string()], "rank ASC"));
    let (p, o) = build_board_base_parts(Some("PROJ"), BoardScope::Kanban);
    assert_eq!(p, vec!["project = \"PROJ\"".to_string(), "statusCategory != Done".to_string()]);
    assert_eq!(o, "rank ASC");
    let (p, o) = build_board_base_parts(None, BoardScope::ScrumWithoutSprint);
    assert!(p.is_empty());
    assert_eq!(o, "updated DESC");
    let (p, _) = build_board_base_parts(Some("A\"B"), BoardScope::NoBoard);
    assert_eq!(p, vec!["project = \"A\\\"B\"".to_string()]);
    assert!(is_scrum_board("Scrum"));
    assert!(!is_scrum_board("kanban"));
}

#[test]
fn status_resolution_outcomes() {
    let valid = vec!["Done".to_string(), "In Progress".to_string(), "In Review".to_string()];
    assert_eq!(resolve_status_name("done", &valid, None).unwrap(), "Done");
    let err = resolve_status_name("in", &valid, None).unwrap_err();
    assert_eq!(err.message(), "Ambiguous status \"in\". Matches: In Progress, In Review");
    let err = resolve_status_name("zz", &valid, Some("PROJ")).unwrap_err();
    assert_eq!(
        err.message(),
        "No status matching \"zz\" for project PROJ. Available: Done, In Progress, In Review"
    );
    let err = resolve_status_name("zz", &valid, None).unwrap_err();
    assert_eq!(err.message(), "No status matching \"zz\". Available: Done, In Progress, In Review");
}

#[test]
fn more_results_hint_texts() {
    assert_eq!(
        more_results_hint(30, Some(120)),
        "Showing 30 of ~120 results. Use --limit or --all to see more."
    );
    assert_eq!(more_results_hint(30, Some(0)), "Showing 30 results. Use --limit or --all to see more.");
    assert_eq!(more_results_hint(5, None), "Showing 5 results. Use --limit or --all to see more.");
    assert_eq!(
        project_not_found_error("NOPE").message(),
        "Project \"NOPE\" not found. Run \"jr project list\" to see available projects."
    );
}

#[test]
fn component_preflight_rules() {
    let v = |xs: &[&str]| xs.iter().map(|s| s.to_string()).collect::<Vec<_>>();
    assert!(validate_component_preflight(&v(&["Backend"]), Some("P")).is_ok());
    assert_eq!(
        validate_component_preflight(&v(&["NONE", "x"]), Some("P")).unwrap_err().message(),
        "--component none cannot be combined with other --component values."
    );
    assert_eq!(
        validate_component_preflight(&v(&["all:a", "all:b"]), Some("P")).unwrap_err().message(),
        "--component all: may only be specified once; comma-separate multiple names within one all: value."
    );
    assert_eq!(
        validate_component_preflight(&v(&["all:a", "b"]), Some("P")).unwrap_err().message(),
        "--component all: cannot be combined with other --component values."
    );
    assert_eq!(
        validate_component_preflight(&v(&["none"]), None).unwrap_err().message(),
        "--component none requires --project (or a configured default project) to avoid an unrestricted org-wide search."
    );
    assert_eq!(
        validate_component_preflight(&v(&["Backend"]), None).unwrap_err().message(),
        "--component requires --project (or a configured default project) to resolve component names."
    );
}

#[test]
fn fields_flag_needs_json_output() {
    assert!(check_fields_output(false, false).is_ok());
    assert!(check_fields_output(true, true).is_ok());
    match check_fields_output(true, false) {
        Err(JrError::UserError(m)) => assert_eq!(m, "--fields requires --output json."),
        other => panic!("unexpected {other:?}"),
    }
}

#[test]
fn list_filter_checks_run_in_order() {
    let mut scope = only_updated_recent();
    // The component combination is checked first.
    let comps = vec!["none".to_string(), "x".to_string()];
    let err = check_list_filters(&comps, None, Some("bad"), Some("7d"), &scope).unwrap_err();
    assert_eq!(err.message(), "--component none cannot be combined with other --component values.");
    // Then --recent, then --updated-recent.
    let err = check_list_filters(&[], None, Some("bad"), Some("nope"), &scope).unwrap_err();
    assert_eq!(
        err.message(),
        "Invalid duration 'bad'. Use a number followed by y, M, w, d, h, or m (e.g., 7d, 4w, 2M)."
    );
    let err = check_list_filters(&[], None, None, Some("nope"), &scope).unwrap_err();
    assert_eq!(
        err.message(),
        "Invalid duration 'nope'. Use a number followed by y, M, w, d, h, or m (e.g., 7d, 4w, 2M)."
    );
    // Then --updated-recent as the only filter.
    let err = check_list_filters(&[], None, None, Some("7d"), &scope).unwrap_err();
    assert_eq!(err.message(), NO_FILTERS_SPECIFIED_MSG);
    scope.has_project = true;
    assert!(check_list_filters(&[], Some("PROJ"), Some("2w"), Some("7d"), &scope).is_ok());
}

use jr::component_filter::{
    ComponentRequest, all_of_clause, any_of_clauses, classify_component_values,
    no_component_clauses, resolve_one_component_id, sort_by_lowercase, sort_by_number,
    split_at_char,
};
use jr::error::JrError;
use jr::partial_match::MatchResult;
use jr::types::component::Component;

fn component(id: &str, name: &str) -> Component {
    Component {
        id: id.into(),
        name: name.into(),
        description: None,
        lead: None,
        assignee_type: None,
        project: None,
        related_issue_count: None,
        is_assignee_type_valid: None,
    }
}

fn strings(v: &[&str]) -> Vec<String> {
    v.iter().map(|s| s.to_string()).collect()
}

#[test]
fn split_at_char_keeps_empty_pieces() {
    assert_eq!(split_at_char("a,,b", ','), strings(&["a", "", "b"]));
    assert_eq!(split_at_char("", ','), strings(&[""]));
    assert_eq!(split_at_char("Backend", ','), strings(&["Backend"]));
    assert_eq!(split_at_char("x,", ','), strings(&["x", ""]));
}

#[test]
fn classify_sole_none_in_any_case() {
    assert!(matches!(classify_component_values(&strings(&["none"])), ComponentRequest::NoComponent));
    assert!(matches!(classify_component_values(&strings(&["NoNe"])), ComponentRequest::NoComponent));
}

#[test]
fn classify_all_value_splits_names() {
    match classify_component_values(&strings(&["all:Backend,API"])) {
        ComponentRequest::AllOf(names) => assert_eq!(names, strings(&["Backend", "API"])),
        _ => panic!("expected AllOf"),
    }
}

#[test]
fn classify_bare_and_not_values_keep_order() {
    match classify_component_values(&strings(&["Backend", "not:Legacy", "API", "not:Old"])) {
        ComponentRequest::AnyOf { wanted, unwanted } => {
            assert_eq!(wanted, strings(&["Backend", "API"]));
            assert_eq!(unwanted, strings(&["Legacy", "Old"]));
        }
        _ => panic!("expected AnyOf"),
    }
}

#[test]
fn exact_name_resolves_to_first_component_id() {
    let cs = vec![component("10001", "Backend"), component("10002", "Backend")];
    let r = resolve_one_component_id(
        "backend",
        "PROJ",
        &cs,
        MatchResult::Exact("Backend".into()),
        false,
    );
    assert_eq!(r.unwrap(), strings(&["10001"]));
}

#[test]
fn numeric_input_is_taken_as_the_id() {
    let cs = vec![component("10001", "Backend")];
    let r = resolve_one_component_id("10042", "PROJ", &cs, MatchResult::Exact("10042".into()), true);
    assert_eq!(r.unwrap(), strings(&["10042"]));
}

#[test]
fn exact_name_missing_from_list_is_internal_error() {
    let cs = vec![component("10001", "Backend")];
    let r = resolve_one_component_id("api", "PROJ", &cs, MatchResult::Exact("API".into()), false);
    match r {
        Err(JrError::Internal(m)) => {
            assert_eq!(m, "Internal error: resolved component name 'API' not found in list.")
        }
        other => panic!("unexpected {other:?}"),
    }
}

#[test]
fn case_variants_union_ascending_by_number() {
    let cs = vec![
        component("20", "API"),
        component("7", "Backend"),
        component("x9", "Api"),
        component("3", "api"),
    ];
    let r = resolve_one_component_id(
        "api",
        "PROJ",
        &cs,
        MatchResult::ExactMultiple(strings(&["API", "Api", "api"])),
        false,
    );
    assert_eq!(r.unwrap(), strings(&["3", "20", "x9"]));
}

#[test]
fn ambiguous_lists_candidates_sorted_case_insensitively() {
    let r = resolve_one_component_id(
        "end",
        "PROJ",
        &[],
        MatchResult::Ambiguous(strings(&["Frontend", "backend", "Api-end"])),
        false,
    );
    match r {
        Err(JrError::UserError(m)) => {
            assert_eq!(m, "Ambiguous component 'end'. Matches: Api-end, backend, Frontend.")
        }
        other => panic!("unexpected {other:?}"),
    }
}

#[test]
fn unknown_lists_available_sorted_case_insensitively() {
    let r = resolve_one_component_id(
        "Nope",
        "PROJ",
        &[],
        MatchResult::NoMatch(strings(&["zeta", "Alpha", "beta"])),
        false,
    );
    match r {
        Err(JrError::UserError(m)) => assert_eq!(
            m,
            "Component 'Nope' not found in project PROJ. Available: Alpha, beta, zeta."
        ),
        other => panic!("unexpected {other:?}"),
    }
}

#[test]
fn sorting_is_stable() {
    assert_eq!(
        sort_by_lowercase(&strings(&["b", "A", "a", "B"])),
        strings(&["A", "a", "b", "B"])
    );
    assert_eq!(
        sort_by_number(&strings(&["10", "x", "2", "y", "+1"])),
        strings(&["+1", "2", "10", "x", "y"])
    );
}

#[test]
fn any_of_clauses_bare_then_not() {
    let wanted = vec![strings(&["10001"]), strings(&["10003", "10004"])];
    let unwanted = vec![strings(&["10002"])];
    assert_eq!(
        any_of_clauses(&wanted, &unwanted),
        strings(&[
            "component in (10001, 10003, 10004)",
            "(component not in (10002) OR component is EMPTY)",
        ])
    );
    assert_eq!(any_of_clauses(&wanted, &vec![]), strings(&["component in (10001, 10003, 10004)"]));
    assert_eq!(
        any_of_clauses(&vec![], &unwanted),
        strings(&["(component not in (10002) OR component is EMPTY)"])
    );
    assert!(any_of_clauses(&vec![], &vec![]).is_empty());
}

#[test]
fn all_of_clause_ands_names_and_ors_case_variants() {
    let per_name = vec![strings(&["1"]), strings(&["2", "3"])];
    assert_eq!(all_of_clause(&per_name), "component = 1 AND (component = 2 OR component = 3)");
}

#[test]
fn none_clause() {
    assert_eq!(no_component_clauses(), strings(&["component is EMPTY"]));
}

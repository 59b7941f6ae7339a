use jr::error::JrError;
use jr::jsm_create::{
    AssetReference, ExtraField, ExtraFieldAction, FieldValueKind, FieldValueSpec,
    resolve_jsm_adf_extra_fields, IgnoredFlags, asset_field_spec,
    check_asset_reference, check_jsm_create_flags, extra_field_action, ignored_flag_warnings,
    is_request_type_id, jsm_adf_empty_omit_guard_applies, resolve_request_type_by_name,
};
use jr::types::jsm::RequestType;

fn user_error(r: Result<AssetReference, JrError>) -> String {
    match r {
        Err(JrError::UserError(m)) => m,
        Err(other) => panic!("unexpected error {other:?}"),
        Ok(_) => panic!("expected an error"),
    }
}

#[test]
fn asset_reference_empty() {
    assert_eq!(
        user_error(check_asset_reference("")),
        "asset reference cannot be empty. Use --field NAME:asset=OBJECTID (workspace id resolved from cache) or --field NAME:asset=WORKSPACE:OBJECTID."
    );
}

#[test]
fn asset_reference_empty_workspace_checked_before_object() {
    assert_eq!(
        user_error(check_asset_reference(":")),
        "workspace segment cannot be empty when ':' is present; omit the workspace prefix entirely to use the cached workspace id."
    );
}

#[test]
fn asset_reference_extra_colon() {
    assert_eq!(
        user_error(check_asset_reference("ws:1:2")),
        "unexpected extra ':' in :asset value 'ws:1:2' \u{2014} expected WORKSPACE:OBJECTID."
    );
}

#[test]
fn asset_reference_object_must_be_ascii_digits() {
    assert_eq!(
        user_error(check_asset_reference("ws:")),
        "objectId must be numeric (ASCII digits only); got ''."
    );
    assert_eq!(
        user_error(check_asset_reference("ws:12a")),
        "objectId must be numeric (ASCII digits only); got '12a'."
    );
    assert_eq!(
        user_error(check_asset_reference("\u{0663}")),
        "objectId must be numeric (ASCII digits only); got '\u{0663}'."
    );
}

#[test]
fn asset_reference_forms() {
    match check_asset_reference("abc-123:88") {
        Ok(AssetReference::Qualified { workspace_id, object_id }) => {
            assert_eq!(workspace_id, "abc-123");
            assert_eq!(object_id, "88");
        }
        _ => panic!("expected a qualified reference"),
    }
    match check_asset_reference("88") {
        Ok(AssetReference::Bare { object_id }) => assert_eq!(object_id, "88"),
        _ => panic!("expected a bare reference"),
    }
    let spec = asset_field_spec("ws-1", "88");
    assert_eq!(spec.value, "ws-1:88");
    assert_eq!(spec.kind, Some(FieldValueKind::Asset));
}

#[test]
fn extra_field_actions() {
    assert_eq!(extra_field_action(Some(FieldValueKind::Id), Some(true), ""), ExtraFieldAction::Keep);
    assert_eq!(extra_field_action(None, None, "text"), ExtraFieldAction::Keep);
    assert_eq!(extra_field_action(None, Some(false), "text"), ExtraFieldAction::Keep);
    assert_eq!(extra_field_action(None, Some(true), "  \t"), ExtraFieldAction::Omit);
    assert_eq!(
        extra_field_action(None, Some(true), " hello "),
        ExtraFieldAction::ConvertToRichText
    );
    assert!(jsm_adf_empty_omit_guard_applies(None));
    assert!(!jsm_adf_empty_omit_guard_applies(Some(FieldValueKind::Asset)));
}

fn rt(id: &str, name: &str) -> RequestType {
    RequestType {
        id: id.into(),
        name: name.into(),
        description: None,
        help_text: None,
        issue_type_id: None,
        group_ids: vec![],
    }
}

fn type_error(r: Result<String, JrError>) -> String {
    match r {
        Err(JrError::UserError(m)) => m,
        other => panic!("expected a user error, got {other:?}"),
    }
}

#[test]
fn request_type_exact_match_gives_id() {
    let types = vec![rt("10", "Get IT help"), rt("11", "Request new hardware")];
    assert_eq!(resolve_request_type_by_name("get it help", &types, "HELP", "/c").unwrap(), "10");
}

#[test]
fn request_type_duplicates_list_ids() {
    let types = vec![rt("10", "Get help"), rt("11", "GET HELP"), rt("12", "Other")];
    assert_eq!(
        type_error(resolve_request_type_by_name("get help", &types, "HELP", "/c")),
        "Multiple request types named \"Get help\" found (IDs: 10, 11). Pass the numeric ID directly."
    );
}

#[test]
fn request_type_ambiguous_lists_quoted_names() {
    let types = vec![rt("10", "Get IT help"), rt("11", "Get HR help")];
    assert_eq!(
        type_error(resolve_request_type_by_name("help", &types, "HELP", "/c")),
        "Ambiguous request type \"help\" matches: \"Get IT help\", \"Get HR help\". Run `jr requesttype list --project HELP` to see all request types."
    );
}

#[test]
fn request_type_unknown_names_cache_file() {
    let types = vec![rt("10", "Get IT help")];
    assert_eq!(
        type_error(resolve_request_type_by_name("laptop", &types, "HELP", "/tmp/rt.json")),
        "Request type \"laptop\" not found. Run `jr requesttype list --project HELP` to see all request types, or delete the cache file at /tmp/rt.json if a recent admin change is suspected."
    );
}

fn flags_error(r: Result<(), JrError>) -> String {
    match r {
        Err(JrError::UserError(m)) => m,
        other => panic!("expected a user error, got {other:?}"),
    }
}

#[test]
fn blank_request_type_refused_first() {
    let pairs = vec!["description=x".to_string()];
    assert_eq!(
        flags_error(check_jsm_create_flags("   ", true, &pairs, false, false)),
        "request type cannot be empty"
    );
}

#[test]
fn markdown_with_description_field_refused() {
    let pairs = vec!["priority=High".to_string(), "description=plain".to_string()];
    assert_eq!(
        flags_error(check_jsm_create_flags("Get help", true, &pairs, true, false)),
        "`--field description=...` cannot be combined with `--markdown`: it would overwrite the ADF description with plain text, desyncing `isAdfRequest: true` with a plain-string description value (may result in a JSM 400 error or silently dropped ADF formatting). Pass `--description` with `--markdown`, or omit `--markdown`."
    );
    // The key must be exactly `description`, before the first `=`.
    let other = vec!["Description=x".to_string(), "description =x".to_string(), "x=description=y".to_string()];
    assert!(check_jsm_create_flags("Get help", true, &other, true, false).is_ok());
    // Without --markdown the pair is fine.
    assert!(check_jsm_create_flags("Get help", false, &pairs, false, false).is_ok());
}

#[test]
fn markdown_needs_a_description() {
    assert_eq!(
        flags_error(check_jsm_create_flags("Get help", true, &[], false, false)),
        "--markdown requires --description or --description-stdin to take effect. Pass a description alongside --markdown, or omit --markdown."
    );
    assert!(check_jsm_create_flags("Get help", true, &[], false, true).is_ok());
    assert!(check_jsm_create_flags("Get help", true, &[], true, false).is_ok());
}

#[test]
fn ignored_flags_warn_in_flag_order() {
    let f = IgnoredFlags {
        issue_type: true,
        team: false,
        points: true,
        parent: false,
        to: false,
        account_id: true,
    };
    assert_eq!(
        ignored_flag_warnings(&f),
        vec![
            "warning: --type is ignored when --request-type is set; request type encodes the issue type".to_string(),
            "warning: --points is ignored when --request-type is set; story points are not part of JSM request schema".to_string(),
            "warning: --account-id is ignored when --request-type is set; use --on-behalf-of to set the requester".to_string(),
        ]
    );
}

#[test]
fn numeric_request_type_is_an_id() {
    assert!(is_request_type_id("42"));
    assert!(!is_request_type_id("4two"));
    assert!(!is_request_type_id("\u{0664}\u{0662}"));
}

#[test]
fn rich_text_fields_are_converted_blank_ones_left_out_and_the_rest_kept() {
    let field = |name: &str, kind: Option<FieldValueKind>, value: &str, rich_text: Option<bool>| ExtraField {
        name: name.to_string(),
        spec: FieldValueSpec { kind, value: value.to_string() },
        rich_text,
    };
    let fields = vec![
        field("customfield_1", None, "Some *text*", Some(true)),
        field("customfield_2", None, "   ", Some(true)),
        field("customfield_3", None, "plain", Some(false)),
        field("customfield_4", None, "unknown", None),
        field("customfield_5", Some(FieldValueKind::Id), "10001", Some(true)),
    ];
    let r = resolve_jsm_adf_extra_fields(&fields);
    assert!(r.is_adf_request);
    assert_eq!(r.adf_texts, vec![("customfield_1".to_string(), "Some *text*".to_string())]);
    let kept: Vec<(&str, &str)> = r.extra_fields.iter().map(|(n, s)| (n.as_str(), s.value.as_str())).collect();
    assert_eq!(kept, vec![("customfield_3", "plain"), ("customfield_4", "unknown"), ("customfield_5", "10001")]);
    assert_eq!(r.extra_fields[2].1.kind, Some(FieldValueKind::Id));

    let unfetched = vec![field("customfield_1", None, "Some *text*", None)];
    let r = resolve_jsm_adf_extra_fields(&unfetched);
    assert!(!r.is_adf_request);
    assert!(r.adf_texts.is_empty());
    assert_eq!(r.extra_fields.len(), 1);
}

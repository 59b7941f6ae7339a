use jr::linked::{
    LinkedAsset, assets_by_field, enrich_assets, enrichment_keys, fetch_key, format_linked_assets,
    format_linked_assets_short,
};

#[test]
fn display_key_and_name() {
    let a = LinkedAsset {
        key: Some("OBJ-1".into()),
        name: Some("Acme Corp".into()),
        ..Default::default()
    };
    assert_eq!(a.display(), "OBJ-1 (Acme Corp)");
}

#[test]
fn display_key_only() {
    let a = LinkedAsset {
        key: Some("OBJ-1".into()),
        ..Default::default()
    };
    assert_eq!(a.display(), "OBJ-1");
}

#[test]
fn display_name_only() {
    let a = LinkedAsset {
        name: Some("Acme Corp".into()),
        ..Default::default()
    };
    assert_eq!(a.display(), "Acme Corp");
}

#[test]
fn display_id_fallback_with_hint() {
    let a = LinkedAsset {
        id: Some("12345".into()),
        ..Default::default()
    };
    assert_eq!(
        a.display(),
        "#12345 (run \"jr init\" to resolve asset names)"
    );
}

#[test]
fn display_nothing() {
    let a = LinkedAsset::default();
    assert_eq!(a.display(), "(unknown)");
}

#[test]
fn format_empty_list() {
    assert_eq!(format_linked_assets(&[]), "(none)");
}

#[test]
fn format_single_asset() {
    let assets = vec![LinkedAsset {
        key: Some("OBJ-1".into()),
        name: Some("Acme".into()),
        ..Default::default()
    }];
    assert_eq!(format_linked_assets(&assets), "OBJ-1 (Acme)");
}

#[test]
fn format_multiple_assets() {
    let assets = vec![
        LinkedAsset {
            key: Some("OBJ-1".into()),
            name: Some("Acme".into()),
            ..Default::default()
        },
        LinkedAsset {
            key: Some("OBJ-2".into()),
            name: Some("Globex".into()),
            ..Default::default()
        },
    ];
    assert_eq!(
        format_linked_assets(&assets),
        "OBJ-1 (Acme), OBJ-2 (Globex)"
    );
}

#[test]
fn format_short_empty() {
    assert_eq!(format_linked_assets_short(&[]), "-");
}

#[test]
fn format_short_single() {
    let assets = vec![LinkedAsset {
        key: Some("OBJ-1".into()),
        name: Some("Acme".into()),
        ..Default::default()
    }];
    assert_eq!(format_linked_assets_short(&assets), "OBJ-1 (Acme)");
}

#[test]
fn format_short_multiple() {
    let assets = vec![
        LinkedAsset {
            key: Some("OBJ-1".into()),
            name: Some("Acme".into()),
            ..Default::default()
        },
        LinkedAsset {
            key: Some("OBJ-2".into()),
            ..Default::default()
        },
        LinkedAsset {
            key: Some("OBJ-3".into()),
            ..Default::default()
        },
    ];
    assert_eq!(
        format_linked_assets_short(&assets),
        "OBJ-1 (Acme) (+2 more)"
    );
}

fn by_id(id: &str, workspace: Option<&str>) -> LinkedAsset {
    LinkedAsset {
        id: Some(id.to_string()),
        workspace_id: workspace.map(|w| w.to_string()),
        ..Default::default()
    }
}

#[test]
fn enrichment_keys_are_the_distinct_keys_of_assets_known_only_by_id() {
    let named = LinkedAsset {
        key: Some("OBJ-1".to_string()),
        id: Some("1".to_string()),
        ..Default::default()
    };
    let assets = vec![
        vec![by_id("7", Some("ws")), named],
        vec![by_id("7", Some("ws")), by_id("8", None)],
        vec![],
    ];
    let keys = enrichment_keys(&assets);
    assert_eq!(keys, vec![("ws".to_string(), "7".to_string()), (String::new(), "8".to_string())]);
}

#[test]
fn fetch_key_uses_the_fallback_workspace_only_when_none_is_carried() {
    let fallback = Some("fallback".to_string());
    assert_eq!(
        fetch_key(&(String::new(), "8".to_string()), &fallback),
        ("fallback".to_string(), "8".to_string())
    );
    assert_eq!(
        fetch_key(&("ws".to_string(), "7".to_string()), &fallback),
        ("ws".to_string(), "7".to_string())
    );
    assert_eq!(fetch_key(&(String::new(), "8".to_string()), &None), (String::new(), "8".to_string()));
}

#[test]
fn enrich_assets_applies_fetched_details_by_effective_key() {
    let assets = vec![vec![by_id("7", Some("ws")), by_id("8", None), by_id("9", None)]];
    let resolved = vec![
        (
            ("ws".to_string(), "7".to_string()),
            ("OBJ-7".to_string(), "Laptop".to_string(), "Hardware".to_string()),
        ),
        (
            ("fallback".to_string(), "8".to_string()),
            ("OBJ-8".to_string(), "Server".to_string(), "Hardware".to_string()),
        ),
    ];
    let out = enrich_assets(&assets, &Some("fallback".to_string()), &resolved);
    assert_eq!(out.len(), 1);
    assert_eq!(out[0][0].key.as_deref(), Some("OBJ-7"));
    assert_eq!(out[0][0].name.as_deref(), Some("Laptop"));
    assert_eq!(out[0][0].asset_type.as_deref(), Some("Hardware"));
    assert_eq!(out[0][1].key.as_deref(), Some("OBJ-8"));
    assert_eq!(out[0][1].workspace_id, None);
    assert_eq!(out[0][2].key, None);
    assert_eq!(out[0][2].id.as_deref(), Some("9"));
}

#[test]
fn assets_are_regrouped_by_the_field_they_came_from() {
    let assets = vec![by_id("1", None), by_id("2", None), by_id("3", None)];
    let fields = vec![
        ("customfield_10".to_string(), 2usize),
        ("customfield_11".to_string(), 0usize),
        ("customfield_12".to_string(), 1usize),
        ("customfield_13".to_string(), 5usize),
    ];
    let groups = assets_by_field(&fields, &assets);
    assert_eq!(groups.len(), 2);
    assert_eq!(groups[0].0, "customfield_10");
    let ids: Vec<&str> = groups[0].1.iter().map(|a| a.id.as_deref().unwrap()).collect();
    assert_eq!(ids, vec!["1", "2"]);
    assert_eq!(groups[1].0, "customfield_12");
    assert_eq!(groups[1].1[0].id.as_deref(), Some("3"));
}

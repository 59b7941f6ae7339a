use jr::error::JrError;
use jr::links::{
    LinkTypePick, RemoteLinkTarget, is_already_assigned, links_to_remove, remote_link_target,
    remote_link_target_from, resolve_link_type,
};
use jr::types::jira::{IssueLink, IssueLinkType, LinkedIssue, User};

fn link(id: &str, kind: &str, outward: Option<&str>, inward: Option<&str>) -> IssueLink {
    IssueLink {
        id: id.into(),
        link_type: IssueLinkType {
            id: None,
            name: kind.into(),
            inward: Some("is blocked by".into()),
            outward: Some("blocks".into()),
        },
        inward_issue: inward.map(|k| LinkedIssue { key: k.into(), fields: None }),
        outward_issue: outward.map(|k| LinkedIssue { key: k.into(), fields: None }),
    }
}

#[test]
fn link_type_resolution() {
    let types = vec!["Blocks".to_string(), "Relates".to_string(), "Duplicate".to_string()];
    match resolve_link_type("blocks", &types, true) {
        LinkTypePick::Resolved(n) => assert_eq!(n, "Blocks"),
        _ => panic!("expected exact"),
    }
    match resolve_link_type("e", &types, true) {
        LinkTypePick::Ambiguous(m) => {
            assert_eq!(m, "Ambiguous link type \"e\". Matches: Relates, Duplicate")
        }
        _ => panic!("expected ambiguity"),
    }
    match resolve_link_type("e", &types, false) {
        LinkTypePick::Choose(ms) => assert_eq!(ms, vec!["Relates", "Duplicate"]),
        _ => panic!("expected a choice"),
    }
    match resolve_link_type("Clones", &types, true) {
        LinkTypePick::Unknown(m) => assert_eq!(
            m,
            "Unknown link type \"Clones\". Run \"jr issue link-types\" to see available types."
        ),
        _ => panic!("expected unknown"),
    }
}

#[test]
fn links_between_two_issues() {
    let links = vec![
        link("1", "Blocks", Some("B-2"), None),
        link("2", "Relates", None, Some("b-2")),
        link("3", "Blocks", Some("C-3"), None),
    ];
    assert_eq!(links_to_remove(&links, "B-2", None), vec!["1", "2"]);
    assert_eq!(links_to_remove(&links, "B-2", Some("blocks")), vec!["1"]);
    assert!(links_to_remove(&links, "Z-9", None).is_empty());
}

#[test]
fn assignment_no_op_detection() {
    let u = User { account_id: "acc".into(), display_name: "A".into(), email_address: None, active: None };
    assert!(is_already_assigned(&Some(u.clone()), "acc"));
    assert!(!is_already_assigned(&Some(u), "other"));
    assert!(!is_already_assigned(&None, "acc"));
}

fn link_error(r: Result<RemoteLinkTarget, JrError>) -> String {
    match r {
        Err(JrError::UserError(m)) => m,
        Err(other) => panic!("unexpected error {other:?}"),
        Ok(t) => panic!("expected an error, got {} / {}", t.url, t.title),
    }
}

#[test]
fn remote_link_url_is_normalized_and_titles_default_to_it() {
    let t = remote_link_target("  HTTPS://Example.COM  ", None).unwrap();
    assert_eq!(t.url, "https://example.com/");
    assert_eq!(t.title, "https://example.com/");
    let t = remote_link_target("https://example.com/a b", Some("  Design doc ".into())).unwrap();
    assert_eq!(t.url, "https://example.com/a%20b");
    assert_eq!(t.title, "Design doc");
    let t = remote_link_target("http://example.com/x", Some("   ".into())).unwrap();
    assert_eq!(t.title, "http://example.com/x");
}

#[test]
fn remote_link_refusals() {
    assert_eq!(link_error(remote_link_target("   ", None)), "--url must not be empty.");
    assert_eq!(
        link_error(remote_link_target("not-a-url", None)),
        "--url is not a valid URL: relative URL without a base. Expected something like https://example.com/path."
    );
    assert_eq!(
        link_error(remote_link_target("ftp://example.com/file", None)),
        "--url must use http or https (got ftp)."
    );
}

#[test]
fn remote_link_from_parse_outcome() {
    let ok = remote_link_target_from(Ok(("https://x.io/".into(), "https".into())), None).unwrap();
    assert_eq!(ok.url, "https://x.io/");
    assert_eq!(
        link_error(remote_link_target_from(Ok(("mailto:a@b".into(), "mailto".into())), None)),
        "--url must use http or https (got mailto)."
    );
    assert_eq!(
        link_error(remote_link_target_from(Err("empty host".into()), None)),
        "--url is not a valid URL: empty host. Expected something like https://example.com/path."
    );
}

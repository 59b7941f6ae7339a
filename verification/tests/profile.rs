use jr::profile::Profile;

#[test]
fn test_bc_6_2_015_display_renders_identically_to_wrapped_string() {
    let raw = "sandbox";
    let p = Profile::from(raw.to_string());
    assert_eq!(p.to_string(), raw);
}

#[test]
fn test_bc_6_2_015_display_and_as_ref_agree_for_various_inputs() {
    for raw in ["default", "prod", "sandbox-1", "team_2", ""] {
        let p = Profile::from(raw.to_string());
        assert_eq!(
            p.to_string(),
            raw,
            "Display must render identically to the wrapped string, no decoration"
        );
        assert_eq!(
            p.as_ref(),
            raw,
            "AsRef<str> must return the wrapped string verbatim"
        );
    }
}

#[test]
fn test_bc_6_2_015_from_string_is_infallible_for_empty_string() {
    let p = Profile::from(String::new());
    assert_eq!(p.as_ref(), "");
    assert_eq!(p.to_string(), "");
}

#[test]
fn test_bc_6_2_015_from_string_is_infallible_for_non_existent_profile_name() {
    let p = Profile::from("this-profile-will-never-exist-in-any-config".to_string());
    assert_eq!(p.as_ref(), "this-profile-will-never-exist-in-any-config");
}

#[test]
fn test_bc_6_2_015_display_has_no_bracket_or_quote_decoration() {
    let p = Profile::from("prod".to_string());
    let rendered = p.to_string();
    assert!(!rendered.contains('"'), "Display must not quote-decorate");
    assert!(!rendered.contains('['), "Display must not bracket-decorate");
    assert_eq!(rendered, "prod");
}

#[test]
fn test_bc_6_2_015_clone_and_eq_preserve_wrapped_value() {
    let a = Profile::from("prod".to_string());
    let b = a.clone();
    assert_eq!(a, b);
    assert_ne!(a, Profile::from("sandbox".to_string()));
}

#[test]
fn test_bc_6_2_015_ord_matches_underlying_string_ord() {
    let mut profiles = [
        Profile::from("sandbox".to_string()),
        Profile::from("default".to_string()),
        Profile::from("prod".to_string()),
    ];
    profiles.sort();
    let rendered: Vec<String> = profiles.iter().map(|p| p.to_string()).collect();
    assert_eq!(rendered, vec!["default", "prod", "sandbox"]);
}

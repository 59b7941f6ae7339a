use std::path::PathBuf;

use jr::config::{
    Config, ConfigSources, DefaultsConfig, FieldsConfig, GlobalConfig, InstanceConfig,
    ProfileConfig, ProjectConfig, config_appdata_fallback, migrate_legacy_global,
    resolve_active_profile_name, validate_profile_name,
};
use jr::error::JrError;
use jr::profile::Profile;
use jr::profile_map::ProfileMap;

fn profile_with_url(url: &str) -> ProfileConfig {
    ProfileConfig {
        url: Some(url.into()),
        ..ProfileConfig::default()
    }
}

fn global_with(default_profile: &str, names: &[&str]) -> GlobalConfig {
    let mut profiles = ProfileMap::new();
    for n in names {
        profiles.insert(n.to_string(), profile_with_url("https://x"));
    }
    GlobalConfig {
        default_profile: Some(default_profile.into()),
        profiles,
        ..GlobalConfig::default()
    }
}

fn sources(global: GlobalConfig, env_profile: Option<&str>) -> ConfigSources {
    ConfigSources {
        global,
        project: ProjectConfig::default(),
        env_profile: env_profile.map(|s| s.to_string()),
    }
}

#[test]
fn test_default_config() {
    let config = GlobalConfig::default();
    assert_eq!(config.defaults.output, "table");
    assert!(config.instance.url.is_none());
}

#[test]
fn test_base_url_api_token() {
    let mut profiles = ProfileMap::new();
    profiles.insert(
        "default".to_string(),
        ProfileConfig {
            url: Some("https://myorg.atlassian.net".into()),
            auth_method: Some("api_token".into()),
            ..ProfileConfig::default()
        },
    );
    let config = Config {
        global: GlobalConfig {
            default_profile: Some("default".into()),
            profiles,
            defaults: DefaultsConfig::default(),
            ..Default::default()
        },
        project: ProjectConfig::default(),
        active_profile_name: Profile::from("default".to_string()),
    };
    assert_eq!(config.base_url().unwrap(), "https://myorg.atlassian.net");
}

#[test]
fn test_base_url_oauth() {
    let mut profiles = ProfileMap::new();
    profiles.insert(
        "default".to_string(),
        ProfileConfig {
            url: Some("https://myorg.atlassian.net".into()),
            cloud_id: Some("abc-123".into()),
            auth_method: Some("oauth".into()),
            ..ProfileConfig::default()
        },
    );
    let config = Config {
        global: GlobalConfig {
            default_profile: Some("default".into()),
            profiles,
            defaults: DefaultsConfig::default(),
            ..Default::default()
        },
        project: ProjectConfig::default(),
        active_profile_name: Profile::from("default".to_string()),
    };
    assert_eq!(
        config.base_url().unwrap(),
        "https://api.atlassian.com/ex/jira/abc-123"
    );
}

#[test]
fn test_base_url_missing() {
    let config = Config {
        global: GlobalConfig::default(),
        project: ProjectConfig::default(),
        active_profile_name: Profile::default(),
    };
    assert!(config.base_url().is_err());
}

#[test]
fn base_url_uses_active_profile() {
    let mut profiles = ProfileMap::new();
    profiles.insert(
        "sandbox".to_string(),
        ProfileConfig {
            url: Some("https://sandbox.atlassian.net".into()),
            auth_method: Some("api_token".into()),
            ..ProfileConfig::default()
        },
    );
    let config = Config {
        global: GlobalConfig {
            default_profile: Some("sandbox".into()),
            profiles,
            ..GlobalConfig::default()
        },
        project: ProjectConfig::default(),
        active_profile_name: Profile::from("sandbox".to_string()),
    };
    assert_eq!(config.base_url().unwrap(), "https://sandbox.atlassian.net");
}

#[test]
fn base_url_uses_active_profile_oauth_path() {
    let mut profiles = ProfileMap::new();
    profiles.insert(
        "default".to_string(),
        ProfileConfig {
            url: Some("https://acme.atlassian.net".into()),
            auth_method: Some("oauth".into()),
            cloud_id: Some("abc-123".into()),
            ..ProfileConfig::default()
        },
    );
    let config = Config {
        global: GlobalConfig {
            default_profile: Some("default".into()),
            profiles,
            ..GlobalConfig::default()
        },
        project: ProjectConfig::default(),
        active_profile_name: Profile::from("default".to_string()),
    };
    assert_eq!(
        config.base_url().unwrap(),
        "https://api.atlassian.com/ex/jira/abc-123"
    );
}

#[test]
fn test_project_key_cli_override() {
    let config = Config {
        global: GlobalConfig::default(),
        project: ProjectConfig {
            project: Some("FOO".into()),
            board_id: None,
        },
        active_profile_name: Profile::default(),
    };
    assert_eq!(config.project_key(Some("BAR")), Some("BAR".into()));
    assert_eq!(config.project_key(None), Some("FOO".into()));
}

#[test]
fn test_board_id_cli_override() {
    let config = Config {
        global: GlobalConfig::default(),
        project: ProjectConfig {
            project: None,
            board_id: Some(42),
        },
        active_profile_name: Profile::default(),
    };
    assert_eq!(config.board_id(Some(99)), Some(99));
    assert_eq!(config.board_id(None), Some(42));
    let empty = Config::default();
    assert_eq!(empty.board_id(None), None);
}

#[test]
fn test_base_url_trailing_slash_trimmed() {
    let mut profiles = ProfileMap::new();
    profiles.insert(
        "default".to_string(),
        ProfileConfig {
            url: Some("https://myorg.atlassian.net/".into()),
            auth_method: Some("api_token".into()),
            ..ProfileConfig::default()
        },
    );
    let config = Config {
        global: GlobalConfig {
            default_profile: Some("default".into()),
            profiles,
            defaults: DefaultsConfig::default(),
            ..Default::default()
        },
        project: ProjectConfig::default(),
        active_profile_name: Profile::from("default".to_string()),
    };
    assert_eq!(config.base_url().unwrap(), "https://myorg.atlassian.net");
}

#[test]
fn validate_profile_name_accepts_alphanumeric_dash_underscore() {
    assert!(validate_profile_name("default").is_ok());
    assert!(validate_profile_name("sandbox-uat").is_ok());
    assert!(validate_profile_name("team_a").is_ok());
    assert!(validate_profile_name("Prod1").is_ok());
    assert!(validate_profile_name("a").is_ok());
    assert!(validate_profile_name(&"a".repeat(64)).is_ok());
}

#[test]
fn validate_profile_name_rejects_invalid_chars() {
    for bad in ["", " ", "foo bar", "foo:bar", "foo/bar", "foo.bar", "..", "."] {
        assert!(
            validate_profile_name(bad).is_err(),
            "expected {bad:?} to be rejected"
        );
    }
}

#[test]
fn validate_profile_name_rejects_too_long() {
    let too_long = "a".repeat(65);
    assert!(validate_profile_name(&too_long).is_err());
}

#[test]
fn validate_profile_name_rejects_windows_reserved_names_case_insensitive() {
    for bad in [
        "CON", "con", "Con", "NUL", "nul", "AUX", "aux", "PRN", "prn", "COM1", "com9", "LPT1",
        "lpt9",
    ] {
        assert!(
            validate_profile_name(bad).is_err(),
            "expected Windows reserved name {bad:?} to be rejected"
        );
    }
}

#[test]
fn test_validate_profile_name_too_long_message() {
    let long_name = "a".repeat(65);
    let err = validate_profile_name(&long_name).unwrap_err();
    let msg = err.message();
    assert!(
        msg.contains("too long") || msg.contains("max 64"),
        "error for a 65-char profile name must contain 'too long' or 'max 64'. Got: {msg:?}"
    );
}

#[test]
fn test_validate_profile_name_with_space_message() {
    let err = validate_profile_name("foo bar").unwrap_err();
    let msg = err.message();
    assert!(
        msg.contains("invalid characters") || msg.contains("a-z, 0-9"),
        "error for a profile name with a space must contain 'invalid characters' or \
         'a-z, 0-9'. Got: {msg:?}"
    );
}

#[test]
fn resolve_active_profile_name_uses_cli_flag_when_set() {
    let cfg = GlobalConfig {
        default_profile: Some("config-default".into()),
        ..GlobalConfig::default()
    };
    let name = resolve_active_profile_name(&cfg, Some("flag-value"), None);
    assert_eq!(name, "flag-value");
}

#[test]
fn resolve_active_profile_name_uses_env_when_no_flag() {
    let cfg = GlobalConfig {
        default_profile: Some("config-default".into()),
        ..GlobalConfig::default()
    };
    let name = resolve_active_profile_name(&cfg, None, Some("env-value".into()));
    assert_eq!(name, "env-value");
}

#[test]
fn resolve_active_profile_name_uses_config_when_no_flag_or_env() {
    let cfg = GlobalConfig {
        default_profile: Some("config-default".into()),
        ..GlobalConfig::default()
    };
    let name = resolve_active_profile_name(&cfg, None, None);
    assert_eq!(name, "config-default");
}

#[test]
fn resolve_active_profile_name_falls_back_to_default_literal() {
    let cfg = GlobalConfig::default();
    let name = resolve_active_profile_name(&cfg, None, None);
    assert_eq!(name, "default");
}

#[test]
fn config_active_profile_returns_resolved_profile() {
    let mut profiles = ProfileMap::new();
    profiles.insert("sandbox".to_string(), profile_with_url("https://sandbox.example"));
    let cfg = Config {
        global: GlobalConfig {
            default_profile: Some("sandbox".into()),
            profiles,
            ..GlobalConfig::default()
        },
        project: ProjectConfig::default(),
        active_profile_name: Profile::from("sandbox".to_string()),
    };
    assert_eq!(
        cfg.active_profile().url.as_deref(),
        Some("https://sandbox.example")
    );
}

#[test]
fn config_active_profile_unknown_profile_returns_error() {
    let cfg = Config {
        global: GlobalConfig::default(),
        project: ProjectConfig::default(),
        active_profile_name: Profile::from("ghost".to_string()),
    };
    assert!(cfg.active_profile_or_err().is_err());
}

#[test]
fn migrate_legacy_instance_into_default_profile() {
    let global = GlobalConfig {
        instance: InstanceConfig {
            url: Some("https://legacy.example".into()),
            cloud_id: Some("legacy-1".into()),
            org_id: Some("org-1".into()),
            auth_method: Some("api_token".into()),
            oauth_scopes: None,
        },
        fields: FieldsConfig {
            team_field_id: Some("customfield_99".into()),
            story_points_field_id: Some("customfield_42".into()),
        },
        ..GlobalConfig::default()
    };

    let migrated = migrate_legacy_global(global);

    assert_eq!(migrated.default_profile.as_deref(), Some("default"));
    assert_eq!(migrated.profiles.len(), 1);
    let p = migrated.profiles.get("default").unwrap();
    assert_eq!(p.url.as_deref(), Some("https://legacy.example"));
    assert_eq!(p.cloud_id.as_deref(), Some("legacy-1"));
    assert_eq!(p.team_field_id.as_deref(), Some("customfield_99"));
    assert_eq!(p.story_points_field_id.as_deref(), Some("customfield_42"));
    assert_eq!(
        migrated.instance.url.as_deref(),
        Some("https://legacy.example"),
        "[instance] preserved during transition"
    );
    assert_eq!(
        migrated.fields.team_field_id.as_deref(),
        Some("customfield_99"),
        "[fields] preserved during transition"
    );
}

#[test]
fn migrate_legacy_is_idempotent_when_already_new_shape() {
    let mut profiles = ProfileMap::new();
    profiles.insert("custom".to_string(), profile_with_url("https://x.example"));
    let global = GlobalConfig {
        default_profile: Some("custom".into()),
        profiles,
        ..GlobalConfig::default()
    };
    let migrated = migrate_legacy_global(global.clone());
    assert_eq!(migrated.default_profile.as_deref(), Some("custom"));
    assert_eq!(migrated.profiles.len(), 1);
    assert_eq!(
        migrated.profiles.get("custom").unwrap().url.as_deref(),
        Some("https://x.example")
    );
}

#[test]
fn migrate_legacy_with_no_data_yields_empty_new_shape() {
    let global = GlobalConfig::default();
    let migrated = migrate_legacy_global(global);
    assert!(migrated.profiles.is_empty());
    assert!(migrated.default_profile.is_none());
}

#[test]
fn migrate_legacy_with_only_org_id_set_creates_profile() {
    let global = GlobalConfig {
        instance: InstanceConfig {
            org_id: Some("org-only".into()),
            ..InstanceConfig::default()
        },
        ..GlobalConfig::default()
    };
    let migrated = migrate_legacy_global(global);
    assert_eq!(migrated.default_profile.as_deref(), Some("default"));
    assert_eq!(
        migrated.profiles.get("default").unwrap().org_id.as_deref(),
        Some("org-only")
    );
}

#[test]
fn migrate_legacy_with_only_oauth_scopes_set_creates_profile() {
    let global = GlobalConfig {
        instance: InstanceConfig {
            oauth_scopes: Some("read:jira-work offline_access".into()),
            ..InstanceConfig::default()
        },
        ..GlobalConfig::default()
    };
    let migrated = migrate_legacy_global(global);
    assert_eq!(migrated.default_profile.as_deref(), Some("default"));
    assert_eq!(
        migrated.profiles.get("default").unwrap().oauth_scopes.as_deref(),
        Some("read:jira-work offline_access")
    );
}

#[test]
fn migrate_legacy_twice_changes_nothing_more() {
    let global = GlobalConfig {
        instance: InstanceConfig {
            url: Some("https://legacy.example".into()),
            ..InstanceConfig::default()
        },
        ..GlobalConfig::default()
    };
    let once = migrate_legacy_global(global);
    let twice = migrate_legacy_global(once.clone());
    assert_eq!(twice.default_profile, once.default_profile);
    assert_eq!(twice.profiles.keys(), once.profiles.keys());
}

#[test]
fn config_load_precedence_flag_overrides_env_overrides_field() {
    let g = global_with("from-config", &["from-config", "from-env", "from-flag"]);
    let cfg = Config::load_with(sources(g.clone(), Some("from-env")), Some("from-flag")).unwrap();
    assert_eq!(cfg.active_profile_name.as_ref(), "from-flag");
    let cfg = Config::load_with(sources(g.clone(), Some("from-env")), None).unwrap();
    assert_eq!(cfg.active_profile_name.as_ref(), "from-env");
    let cfg = Config::load_with(sources(g, None), None).unwrap();
    assert_eq!(cfg.active_profile_name.as_ref(), "from-config");
}

#[test]
fn config_load_errors_when_jr_profile_targets_unknown_profile() {
    let g = global_with("default", &["default"]);
    let err = Config::load(sources(g, Some("ghost"))).expect_err("ghost profile should fail");
    assert!(matches!(err, JrError::UserError(_)), "expected UserError, got {err:?}");
    let msg = err.message();
    assert!(msg.contains("unknown profile"), "got: {msg}");
    assert!(msg.contains("ghost"), "got: {msg}");
    assert!(msg.contains("default"), "got: {msg}");
    assert_eq!(msg, "unknown profile: ghost; known: default");
}

#[test]
fn config_load_rejects_invalid_profile_name_from_env() {
    let g = global_with("default", &["default"]);
    let err = Config::load(sources(g, Some("foo:bar"))).expect_err("invalid env name");
    assert!(matches!(err, JrError::UserError(_)), "got {err:?}");
    assert_eq!(err.exit_code(), 64);
}

#[test]
fn test_load_with_invalid_charset_profile_flag_returns_user_error() {
    let err = Config::load_with(sources(GlobalConfig::default(), None), Some("foo:bar"))
        .expect_err("--profile foo:bar should reject");
    assert!(matches!(err, JrError::UserError(_)), "got {err:?}");
    assert_eq!(err.exit_code(), 64);
}

#[test]
fn test_load_with_empty_profile_flag_returns_user_error() {
    let err = Config::load_with(sources(GlobalConfig::default(), None), Some(""))
        .expect_err("--profile \"\" should reject");
    assert!(matches!(err, JrError::UserError(_)), "got {err:?}");
    assert_eq!(err.exit_code(), 64);
}

#[test]
fn test_load_with_overlength_profile_flag_returns_user_error() {
    let long_name = "a".repeat(65);
    let err = Config::load_with(sources(GlobalConfig::default(), None), Some(long_name.as_str()))
        .expect_err("65-char name should reject");
    assert!(matches!(err, JrError::UserError(_)), "got {err:?}");
    assert_eq!(err.exit_code(), 64);
}

#[test]
fn test_load_jr_profile_env_empty_returns_user_error() {
    let err = Config::load(sources(GlobalConfig::default(), Some("")))
        .expect_err("empty JR_PROFILE should reject");
    assert!(matches!(err, JrError::UserError(_)), "got {err:?}");
    assert_eq!(err.exit_code(), 64);
}

#[test]
fn test_load_with_valid_profile_flag_returns_ok() {
    let g = global_with("valid-name", &["valid-name"]);
    let cfg = Config::load_with(sources(g, None), Some("valid-name"))
        .expect("known, valid profile must load");
    assert_eq!(cfg.active_profile_name.as_ref(), "valid-name");
}

#[test]
fn config_load_lenient_succeeds_when_active_profile_unknown() {
    let g = global_with("default", &["default"]);
    let strict = Config::load(sources(g.clone(), Some("ghost")));
    let lenient = Config::load_lenient(sources(g, Some("ghost")));
    assert!(strict.is_err(), "strict load should reject unknown profile");
    assert!(lenient.is_ok(), "lenient load should accept unknown profile");
    let cfg = lenient.unwrap();
    assert_eq!(cfg.active_profile_name.as_ref(), "ghost");
    assert_eq!(cfg.global.profiles.len(), 1, "profile map untouched");
}

#[test]
fn config_load_rejects_invalid_profile_key_in_config() {
    let g = global_with("default", &["default", "bad:name"]);
    let err = Config::load(sources(g, None)).expect_err("invalid profile key should reject");
    assert!(matches!(err, JrError::UserError(_)), "got {err:?}");
    assert_eq!(err.exit_code(), 64);
    let msg = err.message();
    assert!(msg.contains("invalid profile name"), "got: {msg}");
    assert!(msg.contains("bad:name"), "got: {msg}");
}

#[test]
fn test_bc_6_1_014_appdata_env_fallback() {
    assert_eq!(
        PathBuf::from(config_appdata_fallback(Some(String::new()))),
        PathBuf::from("."),
        "empty APPDATA must yield PathBuf::from(\".\")"
    );
    assert_eq!(
        PathBuf::from(config_appdata_fallback(None)),
        PathBuf::from("."),
        "None (unset APPDATA) must yield PathBuf::from(\".\")"
    );
    assert_eq!(
        PathBuf::from(config_appdata_fallback(Some("C:\\Users\\Alice\\AppData\\Roaming".into()))),
        PathBuf::from("C:\\Users\\Alice\\AppData\\Roaming"),
        "non-empty APPDATA must be returned as-is"
    );
}

#[test]
fn reserved_windows_name_is_quoted_in_the_message() {
    match validate_profile_name("con") {
        Err(JrError::UserError(m)) => assert_eq!(
            m,
            "invalid profile name \"con\"; allowed: A-Z a-z 0-9 _ - up to 64 chars; reserved Windows names (CON, NUL, AUX, PRN, COM1-9, LPT1-9) excluded"
        ),
        other => panic!("unexpected {other:?}"),
    }
}

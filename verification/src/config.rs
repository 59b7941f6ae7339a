//! Configuration: the global `config.toml` (named profiles, legacy
//! single-instance settings, output defaults), the per-project `.jr.toml`,
//! and the rules that pick the active profile and check profile names.
//! Reading and writing the files is done by the application around this
//! library; everything decided about their contents is here.
use vstd::prelude::*;
use vstd::string::StringSliceAdditionalSpecFns;

use crate::error::JrError;
use crate::profile::Profile;
use crate::profile_map::ProfileMap;
use crate::text;
use crate::ordered;

verus! {

/// Legacy global custom-field ids (read for migration only).
#[derive(Debug, Clone)]
pub struct FieldsConfig {
    pub team_field_id: Option<String>,
    pub story_points_field_id: Option<String>,
}

/// The settings of one named profile.
#[derive(Debug, Clone)]
pub struct ProfileConfig {
    pub url: Option<String>,
    pub auth_method: Option<String>,
    pub cloud_id: Option<String>,
    pub org_id: Option<String>,
    pub oauth_scopes: Option<String>,
    pub team_field_id: Option<String>,
    pub story_points_field_id: Option<String>,
    /// Default project key for this profile. Overridden by --project flag and .jr.toml.
    pub project: Option<String>,
    /// Free-form environment label for this profile (e.g. "prod"), stored verbatim.
    pub env: Option<String>,
}

/// The global configuration file.
#[derive(Debug, Clone)]
pub struct GlobalConfig {
    /// Name of the active profile (absent from legacy configs).
    pub default_profile: Option<String>,
    /// Named profiles.
    pub profiles: ProfileMap,
    /// Legacy single-instance settings, read for migration only.
    pub instance: InstanceConfig,
    /// Legacy global custom-field ids, read for migration only.
    pub fields: FieldsConfig,
    pub defaults: DefaultsConfig,
}

/// Legacy single-instance settings.
#[derive(Debug, Clone)]
pub struct InstanceConfig {
    pub url: Option<String>,
    pub cloud_id: Option<String>,
    pub org_id: Option<String>,
    pub auth_method: Option<String>,
    pub oauth_scopes: Option<String>,
}

/// Output defaults.
#[derive(Debug, Clone)]
pub struct DefaultsConfig {
    pub output: String,
}

/// The per-project `.jr.toml`.
#[derive(Debug)]
pub struct ProjectConfig {
    pub project: Option<String>,
    pub board_id: Option<u64>,
}

/// The loaded configuration.
#[derive(Debug)]
pub struct Config {
    pub global: GlobalConfig,
    pub project: ProjectConfig,
    /// Resolved at load: flag > JR_PROFILE > default_profile > "default".
    pub active_profile_name: Profile,
}

/// A copy of an optional string.
pub fn copy_opt(o: &Option<String>) -> (r: Option<String>)
    ensures
        r == *o,
{
    match o {
        Some(s) => Some(s.clone()),
        None => None,
    }
}

impl Default for FieldsConfig {
    fn default() -> (r: Self)
        ensures
            r.team_field_id is None,
            r.story_points_field_id is None,
    {
        FieldsConfig { team_field_id: None, story_points_field_id: None }
    }
}

impl Default for ProfileConfig {
    fn default() -> (r: Self)
        ensures
            r == empty_profile(),
    {
        empty_profile_config()
    }
}

/// A profile with nothing set.
pub open spec fn empty_profile() -> ProfileConfig {
    ProfileConfig {
        url: None,
        auth_method: None,
        cloud_id: None,
        org_id: None,
        oauth_scopes: None,
        team_field_id: None,
        story_points_field_id: None,
        project: None,
        env: None,
    }
}

/// A profile with nothing set.
pub fn empty_profile_config() -> (r: ProfileConfig)
    ensures
        r == empty_profile(),
{
    ProfileConfig {
        url: None,
        auth_method: None,
        cloud_id: None,
        org_id: None,
        oauth_scopes: None,
        team_field_id: None,
        story_points_field_id: None,
        project: None,
        env: None,
    }
}

impl ProfileConfig {
    /// A copy of these settings.
    pub fn duplicate(&self) -> (r: Self)
        ensures
            r == *self,
    {
        ProfileConfig {
            url: copy_opt(&self.url),
            auth_method: copy_opt(&self.auth_method),
            cloud_id: copy_opt(&self.cloud_id),
            org_id: copy_opt(&self.org_id),
            oauth_scopes: copy_opt(&self.oauth_scopes),
            team_field_id: copy_opt(&self.team_field_id),
            story_points_field_id: copy_opt(&self.story_points_field_id),
            project: copy_opt(&self.project),
            env: copy_opt(&self.env),
        }
    }
}

impl Default for InstanceConfig {
    fn default() -> (r: Self)
        ensures
            r.url is None,
            r.cloud_id is None,
            r.org_id is None,
            r.auth_method is None,
            r.oauth_scopes is None,
    {
        InstanceConfig { url: None, cloud_id: None, org_id: None, auth_method: None, oauth_scopes: None }
    }
}

impl Default for DefaultsConfig {
    fn default() -> (r: Self)
        ensures
            r.output@ == "table"@,
    {
        DefaultsConfig { output: String::from_str("table") }
    }
}

impl Default for ProjectConfig {
    fn default() -> (r: Self)
        ensures
            r.project is None,
            r.board_id is None,
    {
        ProjectConfig { project: None, board_id: None }
    }
}

impl Default for GlobalConfig {
    fn default() -> (r: Self)
        ensures
            r.default_profile is None,
            r.profiles.key_seq().len() == 0,
            r.instance.url is None && r.instance.cloud_id is None && r.instance.org_id is None
                && r.instance.auth_method is None && r.instance.oauth_scopes is None,
            r.fields.team_field_id is None && r.fields.story_points_field_id is None,
            r.defaults.output@ == "table"@,
    {
        GlobalConfig {
            default_profile: None,
            profiles: ProfileMap::new(),
            instance: InstanceConfig {
                url: None,
                cloud_id: None,
                org_id: None,
                auth_method: None,
                oauth_scopes: None,
            },
            fields: FieldsConfig { team_field_id: None, story_points_field_id: None },
            defaults: DefaultsConfig { output: String::from_str("table") },
        }
    }
}

// ───────────────────────────── views of optional strings ─────────────────────────────

/// An optional owned string seen as characters.
pub open spec fn opt_view(o: Option<String>) -> Option<Seq<char>> {
    match o {
        Some(s) => Some(s@),
        None => None,
    }
}

/// An optional borrowed string seen as characters.
pub open spec fn opt_str_view(o: Option<&str>) -> Option<Seq<char>> {
    match o {
        Some(s) => Some(s@),
        None => None,
    }
}

// ───────────────────────────── the active profile name ─────────────────────────────

/// The active profile name by precedence: the `--profile` flag, then the
/// `JR_PROFILE` environment value, then the configured `default_profile`,
/// then the literal `default`.
pub open spec fn active_profile_name_of(
    config: GlobalConfig,
    cli_flag: Option<Seq<char>>,
    env_var: Option<Seq<char>>,
) -> Seq<char> {
    match cli_flag {
        Some(n) => n,
        None => match env_var {
            Some(n) => n,
            None => match config.default_profile {
                Some(n) => n@,
                None => "default"@,
            },
        },
    }
}

/// Resolve the active profile name from the precedence chain
/// `--profile` > `JR_PROFILE` > `default_profile` > `"default"`.
pub fn resolve_active_profile_name(
    config: &GlobalConfig,
    cli_flag: Option<&str>,
    env_var: Option<String>,
) -> (r: String)
    ensures
        r@ == active_profile_name_of(*config, opt_str_view(cli_flag), opt_view(env_var)),
{
    if let Some(name) = cli_flag {
        return text::owned(name);
    }
    if let Some(name) = env_var {
        return name;
    }
    if let Some(name) = &config.default_profile {
        return name.clone();
    }
    String::from_str("default")
}

// ───────────────────────────── profile names ─────────────────────────────

/// The characters allowed in a profile name: ASCII letters and digits, `_`, `-`.
pub open spec fn is_name_char(c: char) -> bool {
    text::is_alnum(c) || c == '_' || c == '-'
}

/// The device names Windows reserves (compared after ASCII upper-casing).
pub open spec fn is_reserved_windows_name(u: Seq<char>) -> bool {
    ||| u == "CON"@
    ||| u == "NUL"@
    ||| u == "AUX"@
    ||| u == "PRN"@
    ||| u == "COM1"@
    ||| u == "COM2"@
    ||| u == "COM3"@
    ||| u == "COM4"@
    ||| u == "COM5"@
    ||| u == "COM6"@
    ||| u == "COM7"@
    ||| u == "COM8"@
    ||| u == "COM9"@
    ||| u == "LPT1"@
    ||| u == "LPT2"@
    ||| u == "LPT3"@
    ||| u == "LPT4"@
    ||| u == "LPT5"@
    ||| u == "LPT6"@
    ||| u == "LPT7"@
    ||| u == "LPT8"@
    ||| u == "LPT9"@
}

/// The tail shared by the messages about a reserved or badly formed name.
pub open spec fn allowed_names_text() -> Seq<char> {
    "allowed: A-Z a-z 0-9 _ - up to 64 chars; reserved Windows names (CON, NUL, AUX, PRN, COM1-9, LPT1-9) excluded"@
}

/// What is wrong with a profile name, if anything: empty, longer than 64
/// bytes, a character outside `A-Z a-z 0-9 _ -`, or a reserved Windows
/// device name in any case.
pub open spec fn profile_name_problem(name: Seq<char>) -> Option<Seq<char>> {
    if name.len() == 0 {
        Some("Profile name must not be empty"@)
    } else if text::utf8_len(name) > 64 {
        Some("Profile name too long (max 64 characters)"@)
    } else if !(forall|i: int| 0 <= i < name.len() ==> is_name_char(#[trigger] name[i])) {
        Some("Profile name contains invalid characters (use a-z, 0-9, -, _)"@)
    } else if is_reserved_windows_name(text::upper_seq(name)) {
        Some("invalid profile name "@ + text::debug_quoted_of(name) + "; "@ + allowed_names_text())
    } else {
        None
    }
}

fn is_reserved_windows_name_str(u: &str) -> (b: bool)
    ensures
        b == is_reserved_windows_name(u@),
{
    text::str_eq(u, "CON") || text::str_eq(u, "NUL") || text::str_eq(u, "AUX") || text::str_eq(
        u,
        "PRN",
    ) || text::str_eq(u, "COM1") || text::str_eq(u, "COM2") || text::str_eq(u, "COM3")
        || text::str_eq(u, "COM4") || text::str_eq(u, "COM5") || text::str_eq(u, "COM6")
        || text::str_eq(u, "COM7") || text::str_eq(u, "COM8") || text::str_eq(u, "COM9")
        || text::str_eq(u, "LPT1") || text::str_eq(u, "LPT2") || text::str_eq(u, "LPT3")
        || text::str_eq(u, "LPT4") || text::str_eq(u, "LPT5") || text::str_eq(u, "LPT6")
        || text::str_eq(u, "LPT7") || text::str_eq(u, "LPT8") || text::str_eq(u, "LPT9")
}

/// Validate a profile name. Every rejection is a user error (exit 64).
pub fn validate_profile_name(name: &str) -> (r: Result<(), JrError>)
    ensures
        r is Ok <==> profile_name_problem(name@) is None,
        r matches Err(e) ==> (e matches JrError::UserError(m) && profile_name_problem(name@)
            == Some(m@)),
        name.spec_bytes().len() > 64 ==> r is Err,
{
    proof {
        text::lemma_str_len(name);
    }
    let v = text::chars_of(name);
    if v.len() == 0 {
        return Err(JrError::UserError(String::from_str("Profile name must not be empty")));
    }
    if text::utf8_byte_len(&v) > 64 {
        return Err(
            JrError::UserError(String::from_str("Profile name too long (max 64 characters)")),
        );
    }
    let mut i: usize = 0;
    while i < v.len()
        invariant
            i <= v.len(),
            v@ == name@,
            v.len() > 0,
            text::utf8_len(name@) <= 64,
            forall|j: int| 0 <= j < i ==> is_name_char(#[trigger] v@[j]),
        decreases v.len() - i,
    {
        let c = v[i];
        if !(text::char_is_alnum(c) || c == '_' || c == '-') {
            assert(!is_name_char(name@[i as int]));
            return Err(
                JrError::UserError(
                    String::from_str(
                        "Profile name contains invalid characters (use a-z, 0-9, -, _)",
                    ),
                ),
            );
        }
        i = i + 1;
    }
    let upper = text::string_from_chars(&text::upper_chars(&v));
    if is_reserved_windows_name_str(upper.as_str()) {
        let mut m = String::from_str("invalid profile name ");
        let q = text::debug_quoted(name);
        m.append(q.as_str());
        m.append("; ");
        m.append(
            "allowed: A-Z a-z 0-9 _ - up to 64 chars; reserved Windows names (CON, NUL, AUX, PRN, COM1-9, LPT1-9) excluded",
        );
        return Err(JrError::UserError(m));
    }
    Ok(())
}

// ───────────────────────────── legacy migration ─────────────────────────────

/// The legacy `[instance]`/`[fields]` sections hold something.
pub open spec fn has_legacy_data(g: GlobalConfig) -> bool {
    ||| g.instance.url is Some
    ||| g.instance.auth_method is Some
    ||| g.instance.cloud_id is Some
    ||| g.instance.org_id is Some
    ||| g.instance.oauth_scopes is Some
    ||| g.fields.team_field_id is Some
    ||| g.fields.story_points_field_id is Some
}

/// The profile the legacy sections become.
pub open spec fn legacy_profile(g: GlobalConfig) -> ProfileConfig {
    ProfileConfig {
        url: g.instance.url,
        auth_method: g.instance.auth_method,
        cloud_id: g.instance.cloud_id,
        org_id: g.instance.org_id,
        oauth_scopes: g.instance.oauth_scopes,
        team_field_id: g.fields.team_field_id,
        story_points_field_id: g.fields.story_points_field_id,
        project: None,
        env: None,
    }
}

/// A configuration in the legacy single-instance shape: no profiles yet,
/// some legacy settings.
pub open spec fn is_legacy_shape(g: GlobalConfig) -> bool {
    g.profiles.key_seq().len() == 0 && has_legacy_data(g)
}

/// Whether the configuration is in the legacy shape and needs migrating.
pub fn needs_migration(global: &GlobalConfig) -> (b: bool)
    ensures
        b == is_legacy_shape(*global),
{
    global.profiles.is_empty() && (global.instance.url.is_some()
        || global.instance.auth_method.is_some() || global.instance.cloud_id.is_some()
        || global.instance.org_id.is_some() || global.instance.oauth_scopes.is_some()
        || global.fields.team_field_id.is_some() || global.fields.story_points_field_id.is_some())
}

/// Pure migration: copies the legacy `[instance]` + `[fields]` data into a
/// new `[profiles.default]` entry and makes it the default profile. A
/// configuration that already has profiles, or has no legacy data, is
/// returned unchanged. The legacy sections themselves are kept.
pub fn migrate_legacy_global(global: GlobalConfig) -> (r: GlobalConfig)
    ensures
        !is_legacy_shape(global) ==> r == global,
        !is_legacy_shape(r),
        is_legacy_shape(global) ==> {
            &&& opt_view(r.default_profile) == Some("default"@)
            &&& r.profiles.lookup("default"@) == Some(legacy_profile(global))
            &&& r.profiles.key_seq().to_set() == set!["default"@]
            &&& forall|k: Seq<char>| k != "default"@ ==> r.profiles.lookup(k) is None
            &&& r.instance == global.instance
            &&& r.fields == global.fields
            &&& r.defaults == global.defaults
        },
{
    if !needs_migration(&global) {
        return global;
    }
    let mut global = global;
    let ghost g0 = global;
    let profile = ProfileConfig {
        url: copy_opt(&global.instance.url),
        auth_method: copy_opt(&global.instance.auth_method),
        cloud_id: copy_opt(&global.instance.cloud_id),
        org_id: copy_opt(&global.instance.org_id),
        oauth_scopes: copy_opt(&global.instance.oauth_scopes),
        team_field_id: copy_opt(&global.fields.team_field_id),
        story_points_field_id: copy_opt(&global.fields.story_points_field_id),
        env: None,
        project: None,
    };
    proof {
        assert forall|k: Seq<char>| g0.profiles.lookup(k) is None by {
            g0.profiles.lemma_lookup_domain(k);
        }
    }
    global.profiles.insert(String::from_str("default"), profile);
    global.default_profile = Some(String::from_str("default"));
    proof {
        assert(g0.profiles.key_seq().to_set() =~= Set::<Seq<char>>::empty());
        assert(global.profiles.key_seq().to_set() =~= set!["default"@]);
        assert(global.profiles.key_seq().to_set().contains("default"@));
    }
    global
}

// ───────────────────────────── the loaded configuration ─────────────────────────────

/// The profile settings the active profile name selects, or empty settings
/// when no profile has that name.
pub open spec fn active_profile_of(c: Config) -> ProfileConfig {
    match c.global.profiles.lookup(c.active_profile_name@) {
        Some(p) => p,
        None => empty_profile(),
    }
}

/// The names of the configured profiles for a message: joined by `, `, in
/// name order.
pub open spec fn known_names(g: GlobalConfig) -> Seq<char> {
    text::join_seq(g.profiles.key_seq(), ", "@)
}

/// `s` without its trailing `/` characters (`trim_end_matches('/')`).
pub open spec fn trim_trailing_slashes(s: Seq<char>) -> Seq<char>
    decreases s.len(),
{
    if s.len() > 0 && s.last() == '/' {
        trim_trailing_slashes(s.drop_last())
    } else {
        s
    }
}

/// The REST base URL of the active profile: the OAuth gateway URL
/// `https://api.atlassian.com/ex/jira/<cloud_id>` for an OAuth profile with a
/// cloud id, otherwise the profile's URL without trailing slashes; an error
/// message when the profile or its URL is missing.
pub open spec fn base_url_of(c: Config) -> Result<Seq<char>, Seq<char>> {
    let name = c.active_profile_name@;
    match c.global.profiles.lookup(name) {
        None => Err(
            "No Jira instance configured for profile "@ + text::debug_quoted_of(name)
                + ". Run \"jr auth login --profile "@ + name + "\" or \"jr init\"."@,
        ),
        Some(p) => match p.url {
            None => Err(
                "Profile "@ + text::debug_quoted_of(name) + " has no URL configured. Run \"jr auth login --profile "@
                    + name + "\"."@,
            ),
            Some(url) => if p.cloud_id is Some && opt_view(p.auth_method) == Some("oauth"@) {
                Ok("https://api.atlassian.com/ex/jira/"@ + p.cloud_id->0@)
            } else {
                Ok(trim_trailing_slashes(url@))
            },
        },
    }
}

/// Law: the base URL of a configured profile — a profile that does not
/// sign in with OAuth gets its own URL without trailing slashes, whatever
/// cloud id it has stored; an OAuth profile with a cloud id goes through
/// the gateway for that cloud id, and one without a cloud id uses its own
/// URL too.
pub proof fn law_base_url_of_configured_profile(c: Config, p: ProfileConfig, url: String)
    requires
        c.global.profiles.lookup(c.active_profile_name@) == Some(p),
        p.url == Some(url),
    ensures
        opt_view(p.auth_method) != Some("oauth"@) ==> base_url_of(c) == Ok::<
            Seq<char>,
            Seq<char>,
        >(trim_trailing_slashes(url@)),
        p.cloud_id is None ==> base_url_of(c) == Ok::<Seq<char>, Seq<char>>(
            trim_trailing_slashes(url@),
        ),
        (opt_view(p.auth_method) == Some("oauth"@) && p.cloud_id is Some) ==> base_url_of(c)
            == Ok::<Seq<char>, Seq<char>>("https://api.atlassian.com/ex/jira/"@ + p.cloud_id->0@),
{
}

/// Law: trimming trailing slashes keeps a prefix of the URL, leaves no
/// trailing `/`, and drops only `/` characters.
pub proof fn law_trim_trailing_slashes(s: Seq<char>)
    ensures
        trim_trailing_slashes(s).len() <= s.len(),
        trim_trailing_slashes(s) == s.take(trim_trailing_slashes(s).len() as int),
        trim_trailing_slashes(s).len() == 0 || trim_trailing_slashes(s).last() != '/',
        forall|i: int|
            trim_trailing_slashes(s).len() <= i < s.len() ==> #[trigger] s[i] == '/',
    decreases s.len(),
{
    if s.len() > 0 && s.last() == '/' {
        law_trim_trailing_slashes(s.drop_last());
        let t = trim_trailing_slashes(s.drop_last());
        assert(s.drop_last().take(t.len() as int) =~= s.take(t.len() as int));
        assert forall|i: int| t.len() <= i < s.len() implies #[trigger] s[i] == '/' by {
            if i < s.len() - 1 {
                assert(s[i] == s.drop_last()[i]);
            }
        }
    } else {
        assert(s.take(s.len() as int) =~= s);
    }
}

fn trim_slashes(s: &str) -> (r: String)
    ensures
        r@ == trim_trailing_slashes(s@),
{
    let v = text::chars_of(s);
    let mut k = v.len();
    assert(v@.take(v.len() as int) =~= v@);
    while k > 0 && v[k - 1] == '/'
        invariant
            k <= v.len(),
            trim_trailing_slashes(v@.take(k as int)) == trim_trailing_slashes(v@),
        decreases k,
    {
        assert(v@.take(k as int).drop_last() =~= v@.take(k - 1));
        k = k - 1;
    }
    let mut out: Vec<char> = Vec::new();
    let mut i: usize = 0;
    while i < k
        invariant
            i <= k <= v.len(),
            out@ =~= v@.take(i as int),
        decreases k - i,
    {
        out.push(v[i]);
        i = i + 1;
    }
    text::string_from_chars(&out)
}

impl Config {
    /// The project key: the `--project` flag, then `.jr.toml`, then the
    /// active profile's default project.
    pub fn project_key(&self, cli_override: Option<&str>) -> (r: Option<String>)
        ensures
            opt_view(r) == match cli_override {
                Some(c) => Some(c@),
                None => match self.project.project {
                    Some(p) => Some(p@),
                    None => opt_view(active_profile_of(*self).project),
                },
            },
    {
        if let Some(c) = cli_override {
            return Some(text::owned(c));
        }
        if let Some(p) = &self.project.project {
            return Some(p.clone());
        }
        let active = self.active_profile();
        active.project
    }

    /// The board id: the flag, then `.jr.toml`.
    pub fn board_id(&self, cli_override: Option<u64>) -> (r: Option<u64>)
        ensures
            r == match cli_override {
                Some(b) => Some(b),
                None => self.project.board_id,
            },
    {
        match cli_override {
            Some(b) => Some(b),
            None => self.project.board_id,
        }
    }

    /// The active profile's settings; empty settings when no profile has the
    /// active name.
    pub fn active_profile(&self) -> (r: ProfileConfig)
        ensures
            r == active_profile_of(*self),
    {
        match self.global.profiles.get(self.active_profile_name.as_ref()) {
            Some(p) => p.duplicate(),
            None => empty_profile_config(),
        }
    }

    /// The active profile's settings, or a configuration error naming the
    /// known profiles when no profile has the active name.
    pub fn active_profile_or_err(&self) -> (r: Result<&ProfileConfig, JrError>)
        ensures
            r matches Ok(p) ==> self.global.profiles.lookup(self.active_profile_name@) == Some(*p),
            r is Err ==> self.global.profiles.lookup(self.active_profile_name@) is None,
            r matches Err(e) ==> (e matches JrError::ConfigError(m) && m@ == "active profile "@
                + text::debug_quoted_of(self.active_profile_name@) + " not in [profiles]; known: "@
                + (if self.global.profiles.key_seq().len() == 0 {
                "(none)"@
            } else {
                known_names(self.global)
            }) + "; fix config.toml or run \"jr auth list\""@),
    {
        match self.global.profiles.get(self.active_profile_name.as_ref()) {
            Some(p) => Ok(p),
            None => {
                let keys = self.global.profiles.keys();
                let mut m = String::from_str("active profile ");
                let q = text::debug_quoted(self.active_profile_name.as_ref());
                m.append(q.as_str());
                m.append(" not in [profiles]; known: ");
                if keys.len() == 0 {
                    m.append("(none)");
                } else {
                    let joined = text::join(&keys, ", ");
                    m.append(joined.as_str());
                }
                m.append("; fix config.toml or run \"jr auth list\"");
                Err(JrError::ConfigError(m))
            },
        }
    }

    /// The REST base URL of the active profile.
    pub fn base_url(&self) -> (r: Result<String, JrError>)
        ensures
            r matches Ok(u) ==> base_url_of(*self) == Ok::<Seq<char>, Seq<char>>(u@),
            r matches Err(e) ==> (e matches JrError::ConfigError(m) && base_url_of(*self) == Err::<
                Seq<char>,
                Seq<char>,
            >(m@)),
    {
        let name = self.active_profile_name.as_ref();
        let profile = match self.global.profiles.get(name) {
            Some(p) => p,
            None => {
                let mut m = String::from_str("No Jira instance configured for profile ");
                let q = text::debug_quoted(name);
                m.append(q.as_str());
                m.append(". Run \"jr auth login --profile ");
                m.append(name);
                m.append("\" or \"jr init\".");
                return Err(JrError::ConfigError(m));
            },
        };
        let url = match &profile.url {
            Some(u) => u,
            None => {
                let mut m = String::from_str("Profile ");
                let q = text::debug_quoted(name);
                m.append(q.as_str());
                m.append(" has no URL configured. Run \"jr auth login --profile ");
                m.append(name);
                m.append("\".");
                return Err(JrError::ConfigError(m));
            },
        };
        if let Some(cloud_id) = &profile.cloud_id {
            let is_oauth = match &profile.auth_method {
                Some(a) => text::str_eq(a.as_str(), "oauth"),
                None => false,
            };
            if is_oauth {
                let mut r = String::from_str("https://api.atlassian.com/ex/jira/");
                r.append(cloud_id.as_str());
                return Ok(r);
            }
        }
        Ok(trim_slashes(url.as_str()))
    }
}

impl Default for Config {
    fn default() -> (r: Self)
        ensures
            r.global.profiles.key_seq().len() == 0,
            r.global.default_profile is None,
            r.project.project is None && r.project.board_id is None,
            r.active_profile_name@ == Seq::<char>::empty(),
    {
        Config {
            global: GlobalConfig::default(),
            project: ProjectConfig::default(),
            active_profile_name: Profile::new(String::new()),
        }
    }
}

// ───────────────────────────── loading ─────────────────────────────

/// The first name, in order, that fails profile-name validation.
pub open spec fn first_bad_name(names: Seq<Seq<char>>) -> Option<Seq<char>>
    decreases names.len(),
{
    if names.len() == 0 {
        None
    } else if profile_name_problem(names[0]) is Some {
        Some(names[0])
    } else {
        first_bad_name(names.drop_first())
    }
}

/// What is wrong with a configuration being loaded, if anything: a profile
/// key in `config.toml` that is not a valid name (the first in name order);
/// an invalid active profile name; or — for a strict load with profiles
/// configured — an active profile name that no profile has.
pub open spec fn load_problem(
    g: GlobalConfig,
    cli_profile: Option<Seq<char>>,
    env_profile: Option<Seq<char>>,
    strict: bool,
) -> Option<Seq<char>> {
    match first_bad_name(g.profiles.key_seq()) {
        Some(k) => Some(
            "invalid profile name "@ + text::debug_quoted_of(k) + " in config.toml; "@
                + allowed_names_text(),
        ),
        None => {
            let raw = active_profile_name_of(g, cli_profile, env_profile);
            match profile_name_problem(raw) {
                Some(m) => Some(m),
                None => if strict && g.profiles.key_seq().len() > 0 && g.profiles.lookup(raw) is None {
                    Some("unknown profile: "@ + raw + "; known: "@ + known_names(g))
                } else {
                    None
                },
            }
        },
    }
}

/// Law: a lenient load refuses nothing that a strict load accepts, and
/// what it accepts beyond that is exactly an active profile name that no
/// configured profile has (the strict load's "unknown profile" refusal).
pub proof fn law_lenient_load_only_skips_unknown_profile(
    g: GlobalConfig,
    cli_profile: Option<Seq<char>>,
    env_profile: Option<Seq<char>>,
)
    ensures
        load_problem(g, cli_profile, env_profile, true) is None ==> load_problem(
            g,
            cli_profile,
            env_profile,
            false,
        ) is None,
        (load_problem(g, cli_profile, env_profile, false) is None && load_problem(
            g,
            cli_profile,
            env_profile,
            true,
        ) is Some) ==> ({
            let raw = active_profile_name_of(g, cli_profile, env_profile);
            &&& g.profiles.key_seq().len() > 0
            &&& g.profiles.lookup(raw) is None
            &&& load_problem(g, cli_profile, env_profile, true) == Some(
                "unknown profile: "@ + raw + "; known: "@ + known_names(g),
            )
        }),
{
}

impl Config {
    /// Completes loading from the already-read (and, for legacy files,
    /// already migrated) global configuration and project configuration:
    /// validates every configured profile name, resolves and validates the
    /// active profile name, and — for a strict load — requires that profile
    /// to exist when any profiles are configured. A lenient load (used when
    /// logging in, which creates profiles) skips the existence check.
    pub fn load_from(
        global: GlobalConfig,
        project: ProjectConfig,
        cli_profile: Option<&str>,
        env_profile: Option<String>,
        strict: bool,
    ) -> (r: Result<Config, JrError>)
        ensures
            r is Ok <==> load_problem(
                global,
                opt_str_view(cli_profile),
                opt_view(env_profile),
                strict,
            ) is None,
            r matches Ok(c) ==> c.global == global && c.project == project
                && c.active_profile_name@ == active_profile_name_of(
                global,
                opt_str_view(cli_profile),
                opt_view(env_profile),
            ),
            r matches Ok(c) ==> profile_name_problem(c.active_profile_name@) is None,
            r matches Ok(c) ==> (strict && c.global.profiles.key_seq().len() > 0
                ==> c.global.profiles.lookup(c.active_profile_name@) is Some),
            r matches Err(e) ==> (e matches JrError::UserError(m) && load_problem(
                global,
                opt_str_view(cli_profile),
                opt_view(env_profile),
                strict,
            ) == Some(m@)),
    {
        let keys = global.profiles.keys();
        let ghost ks = text::views(keys@);
        let mut i: usize = 0;
        assert(ks.skip(0) =~= ks);
        while i < keys.len()
            invariant
                i <= keys.len(),
                ks == text::views(keys@),
                ks == global.profiles.key_seq(),
                first_bad_name(ks) == first_bad_name(ks.skip(i as int)),
            decreases keys.len() - i,
        {
            assert(ks.skip(i as int)[0] == keys@[i as int]@);
            assert(ks.skip(i as int).drop_first() =~= ks.skip(i + 1));
            if validate_profile_name(keys[i].as_str()).is_err() {
                let mut m = String::from_str("invalid profile name ");
                let q = text::debug_quoted(keys[i].as_str());
                m.append(q.as_str());
                m.append(" in config.toml; ");
                m.append(
                    "allowed: A-Z a-z 0-9 _ - up to 64 chars; reserved Windows names (CON, NUL, AUX, PRN, COM1-9, LPT1-9) excluded",
                );
                return Err(JrError::UserError(m));
            }
            i = i + 1;
        }
        let ghost env_v = opt_view(env_profile);
        let raw = resolve_active_profile_name(&global, cli_profile, env_profile);
        match validate_profile_name(raw.as_str()) {
            Ok(()) => {},
            Err(e) => {
                return Err(e);
            },
        }
        if strict && !global.profiles.is_empty() && !global.profiles.contains_key(raw.as_str()) {
            let mut m = String::from_str("unknown profile: ");
            m.append(raw.as_str());
            m.append("; known: ");
            let joined = text::join(&keys, ", ");
            m.append(joined.as_str());
            return Err(JrError::UserError(m));
        }
        Ok(Config { global, project, active_profile_name: Profile::new(raw) })
    }
}

/// What saving writes: the file as it is on disk (without the environment
/// overlay), with only the active-profile choice and the profiles taken
/// from the configuration in memory — so a transient environment override
/// never reaches the file.
pub fn global_for_save(on_disk: GlobalConfig, current: &GlobalConfig) -> (r: GlobalConfig)
    ensures
        r.default_profile == current.default_profile,
        r.profiles.key_seq() == current.profiles.key_seq(),
        forall|k: Seq<char>| r.profiles.lookup(k) == current.profiles.lookup(k),
        r.instance == on_disk.instance,
        r.fields == on_disk.fields,
        r.defaults == on_disk.defaults,
{
    let mut g = on_disk;
    g.default_profile = copy_opt(&current.default_profile);
    g.profiles = current.profiles.clone();
    g
}

/// What loading reads before it decides anything: the global configuration
/// (`config.toml` with the `JR_*` environment overlay, already migrated
/// when it had the legacy layout), the project's `.jr.toml` (or its
/// defaults), and the `JR_PROFILE` environment value.
pub struct ConfigSources {
    pub global: GlobalConfig,
    pub project: ProjectConfig,
    pub env_profile: Option<String>,
}

impl Config {
    /// Strict load with no `--profile` flag.
    pub fn load(sources: ConfigSources) -> (r: Result<Config, JrError>)
        ensures
            r is Ok <==> load_problem(sources.global, None, opt_view(sources.env_profile), true)
                is None,
            r matches Ok(c) ==> c.global == sources.global && c.project == sources.project
                && c.active_profile_name@ == active_profile_name_of(
                sources.global,
                None,
                opt_view(sources.env_profile),
            ),
            r matches Err(e) ==> (e matches JrError::UserError(m) && load_problem(
                sources.global,
                None,
                opt_view(sources.env_profile),
                true,
            ) == Some(m@)),
    {
        Config::load_from(sources.global, sources.project, None, sources.env_profile, true)
    }

    /// Strict load with the `--profile` flag's value.
    pub fn load_with(sources: ConfigSources, cli_profile: Option<&str>) -> (r: Result<
        Config,
        JrError,
    >)
        ensures
            r is Ok <==> load_problem(
                sources.global,
                opt_str_view(cli_profile),
                opt_view(sources.env_profile),
                true,
            ) is None,
            r matches Ok(c) ==> c.global == sources.global && c.project == sources.project
                && c.active_profile_name@ == active_profile_name_of(
                sources.global,
                opt_str_view(cli_profile),
                opt_view(sources.env_profile),
            ),
            r matches Err(e) ==> (e matches JrError::UserError(m) && load_problem(
                sources.global,
                opt_str_view(cli_profile),
                opt_view(sources.env_profile),
                true,
            ) == Some(m@)),
    {
        Config::load_from(sources.global, sources.project, cli_profile, sources.env_profile, true)
    }

    /// Lenient load (used by `auth login`, which creates profiles): the
    /// active profile need not exist yet.
    pub fn load_lenient(sources: ConfigSources) -> (r: Result<Config, JrError>)
        ensures
            r is Ok <==> load_problem(sources.global, None, opt_view(sources.env_profile), false)
                is None,
            r matches Ok(c) ==> c.global == sources.global && c.project == sources.project
                && c.active_profile_name@ == active_profile_name_of(
                sources.global,
                None,
                opt_view(sources.env_profile),
            ),
            r matches Err(e) ==> (e matches JrError::UserError(m) && load_problem(
                sources.global,
                None,
                opt_view(sources.env_profile),
                false,
            ) == Some(m@)),
    {
        Config::load_from(sources.global, sources.project, None, sources.env_profile, false)
    }

    /// Lenient load with the `--profile` flag's value.
    pub fn load_lenient_with(sources: ConfigSources, cli_profile: Option<&str>) -> (r: Result<
        Config,
        JrError,
    >)
        ensures
            r is Ok <==> load_problem(
                sources.global,
                opt_str_view(cli_profile),
                opt_view(sources.env_profile),
                false,
            ) is None,
            r matches Ok(c) ==> c.global == sources.global && c.project == sources.project
                && c.active_profile_name@ == active_profile_name_of(
                sources.global,
                opt_str_view(cli_profile),
                opt_view(sources.env_profile),
            ),
            r matches Err(e) ==> (e matches JrError::UserError(m) && load_problem(
                sources.global,
                opt_str_view(cli_profile),
                opt_view(sources.env_profile),
                false,
            ) == Some(m@)),
    {
        Config::load_from(sources.global, sources.project, cli_profile, sources.env_profile, false)
    }
}

/// Fallback for a Windows `%APPDATA%`-style environment value when no
/// configuration directory is known: a non-empty value is the directory; an
/// empty or absent one means `.`. The caller makes the path of this text
/// (`PathBuf::from`).
pub fn config_appdata_fallback(env_val: Option<String>) -> (p: String)
    ensures
        p@ == match env_val {
            Some(s) => if s@.len() > 0 {
                s@
            } else {
                "."@
            },
            None => "."@,
        },
{
    match env_val {
        Some(s) => {
            if s.as_str().unicode_len() > 0 {
                s
            } else {
                String::from_str(".")
            }
        },
        None => String::from_str("."),
    }
}

} // verus!

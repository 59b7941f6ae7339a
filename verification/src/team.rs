//! Where the organization id that team lookups need comes from, and how a
//! team id is shown with the names of the cached teams.
use vstd::prelude::*;

use crate::config::Config;
use crate::error::JrError;
use crate::text;

verus! {

/// `s` with every leading copy of `p` removed (`str::trim_start_matches`
/// with a string pattern).
pub open spec fn strip_prefixes(s: Seq<char>, p: Seq<char>) -> Seq<char>
    decreases s.len(),
{
    if p.len() > 0 && text::has_prefix(s, p) {
        strip_prefixes(s.skip(p.len() as int), p)
    } else {
        s
    }
}

/// `s` with every trailing `c` removed (`str::trim_end_matches` with a char).
pub open spec fn strip_trailing(s: Seq<char>, c: char) -> Seq<char>
    decreases s.len(),
{
    if s.len() > 0 && s.last() == c {
        strip_trailing(s.drop_last(), c)
    } else {
        s
    }
}

/// The host name of an instance URL: without leading `https://`, then
/// without leading `http://`, then without trailing `/`.
pub open spec fn host_of(url: Seq<char>) -> Seq<char> {
    strip_trailing(strip_prefixes(strip_prefixes(url, "https://"@), "http://"@), '/')
}

/// `s` with every leading copy of `p` removed.
fn trim_start_str(s: &str, p: &str) -> (r: String)
    ensures
        r@ == strip_prefixes(s@, p@),
{
    let v = text::chars_of(s);
    let pv = text::chars_of(p);
    if pv.len() == 0 {
        return text::owned(s);
    }
    let n = v.len();
    let mut i: usize = 0;
    assert(v@.skip(0) =~= s@);
    while text::matches_at(&v, &pv, i)
        invariant
            i <= v@.len() == n,
            v@ == s@,
            pv@ == p@,
            pv@.len() > 0,
            strip_prefixes(s@, p@) == strip_prefixes(v@.skip(i as int), p@),
        decreases v@.len() - i,
    {
        assert(text::occurs_at(v@, pv@, i as int));
        assert(i + pv@.len() <= v@.len());
        assert(v@.skip(i as int).subrange(0, pv@.len() as int) =~= v@.subrange(
            i as int,
            i + pv@.len(),
        ));
        assert(v@.skip(i as int).skip(pv@.len() as int) =~= v@.skip(i + pv@.len()));
        i = i + pv.len();
    }
    proof {
        if pv@.len() <= v@.len() - i {
            assert(v@.skip(i as int).subrange(0, pv@.len() as int) =~= v@.subrange(
                i as int,
                i + pv@.len(),
            ));
        }
        assert(!text::has_prefix(v@.skip(i as int), p@));
    }
    text::string_from_chars(v.as_slice().split_at(i).1)
}

/// `s` with every trailing `c` removed.
fn trim_end_char(s: &str, c: char) -> (r: String)
    ensures
        r@ == strip_trailing(s@, c),
{
    let v = text::chars_of(s);
    let mut n: usize = v.len();
    assert(v@.take(n as int) =~= s@);
    while n > 0 && v[n - 1] == c
        invariant
            n <= v@.len(),
            v@ == s@,
            strip_trailing(s@, c) == strip_trailing(v@.take(n as int), c),
        decreases n,
    {
        assert(v@.take(n as int).drop_last() =~= v@.take(n - 1));
        n = n - 1;
    }
    text::string_from_chars(v.as_slice().split_at(n).0)
}

/// The host name of an instance URL.
pub fn instance_host(url: &str) -> (r: String)
    ensures
        r@ == host_of(url@),
{
    let a = trim_start_str(url, "https://");
    let b = trim_start_str(a.as_str(), "http://");
    trim_end_char(b.as_str(), '/')
}

/// Where the organization id comes from.
pub enum OrgIdSource {
    /// The configuration holds it.
    Configured(String),
    /// It must be looked up for this host (and then saved).
    LookUp { host: String },
}

/// The message when no instance is configured.
pub open spec fn no_instance_text() -> Seq<char> {
    "No Jira instance configured. Run \"jr init\" first."@
}

/// The configured organization id when there is one; else a lookup by the
/// configured instance's host name; with no instance URL either, a
/// configuration error.
pub fn org_id_source(config: &Config) -> (r: Result<OrgIdSource, JrError>)
    ensures
        match config.global.instance.org_id {
            Some(o) => r matches Ok(OrgIdSource::Configured(x)) && x@ == o@,
            None => match config.global.instance.url {
                Some(u) => r matches Ok(OrgIdSource::LookUp { host }) && host@ == host_of(u@),
                None => r matches Err(JrError::ConfigError(m)) && m@ == no_instance_text(),
            },
        },
{
    match &config.global.instance.org_id {
        Some(o) => Ok(OrgIdSource::Configured(o.clone())),
        None => match &config.global.instance.url {
            Some(u) => Ok(OrgIdSource::LookUp { host: instance_host(u.as_str()) }),
            None => Err(
                JrError::ConfigError(
                    String::from_str("No Jira instance configured. Run \"jr init\" first."),
                ),
            ),
        },
    }
}

// ───────────────────────────── showing teams ─────────────────────────────

/// The name of the last cached team (id, name) with the given id: a map
/// built from the cache in order keeps the last name given to an id.
pub open spec fn last_team_name(teams: Seq<(String, String)>, id: Seq<char>) -> Option<Seq<char>>
    decreases teams.len(),
{
    if teams.len() == 0 {
        None
    } else if teams.last().0@ == id {
        Some(teams.last().1@)
    } else {
        last_team_name(teams.drop_last(), id)
    }
}

/// One cell of the team column: the team's cached name, else its id; `-`
/// for an issue without a team.
pub open spec fn team_cell(teams: Seq<(String, String)>, u: Option<String>) -> Seq<char> {
    match u {
        Some(id) => match last_team_name(teams, id@) {
            Some(name) => name,
            None => id@,
        },
        None => "-"@,
    }
}

/// The team column of an issue table, one cell per issue, or no column at
/// all when no issue has a team.
pub open spec fn team_column(uuids: Seq<Option<String>>, teams: Seq<(String, String)>) -> Seq<
    Seq<char>,
> {
    if exists|i: int| 0 <= i < uuids.len() && (#[trigger] uuids[i]) is Some {
        Seq::new(uuids.len(), |i: int| team_cell(teams, uuids[i]))
    } else {
        Seq::empty()
    }
}

fn find_last_team(teams: &[(String, String)], id: &str) -> (r: Option<String>)
    ensures
        match r {
            Some(n) => last_team_name(teams@, id@) == Some(n@),
            None => last_team_name(teams@, id@) is None,
        },
{
    let mut k: usize = teams.len();
    assert(teams@.take(k as int) =~= teams@);
    while k > 0
        invariant
            k <= teams.len(),
            last_team_name(teams@, id@) == last_team_name(teams@.take(k as int), id@),
        decreases k,
    {
        let t = &teams[k - 1];
        assert(teams@.take(k as int).last() == teams@[k - 1]);
        assert(teams@.take(k as int).drop_last() =~= teams@.take(k - 1));
        if text::str_eq(t.0.as_str(), id) {
            return Some(t.1.clone());
        }
        k = k - 1;
    }
    None
}

/// The team column of `issue list` and `sprint current`: for each issue,
/// its team's name from the cached (id, name) list, its team id when the
/// cache does not name it, or `-` without a team; no column at all (an
/// empty list) when no issue has a team.
pub fn team_displays(uuids: &[Option<String>], teams: &[(String, String)]) -> (r: Vec<String>)
    ensures
        text::views(r@) == team_column(uuids@, teams@),
{
    let mut any = false;
    let mut i: usize = 0;
    while i < uuids.len()
        invariant
            i <= uuids.len(),
            any <==> exists|j: int| 0 <= j < i && (#[trigger] uuids@[j]) is Some,
        decreases uuids.len() - i,
    {
        if uuids[i].is_some() {
            any = true;
        }
        i = i + 1;
    }
    let mut out: Vec<String> = Vec::new();
    if !any {
        assert(text::views(out@) =~= team_column(uuids@, teams@));
        return out;
    }
    let mut i: usize = 0;
    while i < uuids.len()
        invariant
            i <= uuids.len(),
            out@.len() == i,
            forall|j: int| 0 <= j < i ==> (#[trigger] out@[j])@ == team_cell(teams@, uuids@[j]),
        decreases uuids.len() - i,
    {
        let cell = match &uuids[i] {
            Some(id) => match find_last_team(teams, id.as_str()) {
                Some(name) => name,
                None => id.clone(),
            },
            None => String::from_str("-"),
        };
        proof {
            reveal_strlit("-");
        }
        out.push(cell);
        i = i + 1;
    }
    assert(text::views(out@) =~= team_column(uuids@, teams@));
    out
}

/// What reading the team cache gave.
pub enum TeamCache {
    /// The cached teams, as (id, name).
    Teams(Vec<(String, String)>),
    /// There is no cache yet.
    NotCached,
    /// The cache could not be read.
    Unreadable,
}

/// The name of the first cached team with the given id.
pub open spec fn first_team_name(teams: Seq<(String, String)>, id: Seq<char>) -> Option<Seq<char>>
    decreases teams.len(),
{
    if teams.len() == 0 {
        None
    } else if teams[0].0@ == id {
        Some(teams[0].1@)
    } else {
        first_team_name(teams.drop_first(), id)
    }
}

/// The team's name, or its id with a hint when the cache does not name it.
pub open spec fn not_cached_text(id: Seq<char>) -> Seq<char> {
    id + " (name not cached \u{2014} run 'jr team list --refresh')"@
}

/// The `Team` row of `issue view`: the first cached team's name with that
/// id; otherwise the id with a hint to refresh the cache, or with a note
/// that the cache could not be read.
pub open spec fn team_row_text_of(id: Seq<char>, cache: TeamCache) -> Seq<char> {
    match cache {
        TeamCache::Teams(teams) => match first_team_name(teams@, id) {
            Some(name) => name,
            None => not_cached_text(id),
        },
        TeamCache::NotCached => not_cached_text(id),
        TeamCache::Unreadable => id + " (team cache unreadable)"@,
    }
}

/// The text of the `Team` row of `issue view` for a team id.
pub fn team_row_text(id: &str, cache: &TeamCache) -> (r: String)
    ensures
        r@ == team_row_text_of(id@, *cache),
{
    let mut hint = text::owned(id);
    hint.append(" (name not cached \u{2014} run 'jr team list --refresh')");
    match cache {
        TeamCache::Teams(teams) => {
            let mut k: usize = 0;
            assert(teams@.skip(0) =~= teams@);
            while k < teams.len()
                invariant
                    k <= teams.len(),
                    first_team_name(teams@, id@) == first_team_name(teams@.skip(k as int), id@),
                    team_row_text_of(id@, *cache) == match first_team_name(teams@, id@) {
                        Some(name) => name,
                        None => not_cached_text(id@),
                    },
                    hint@ == not_cached_text(id@),
                decreases teams.len() - k,
            {
                assert(teams@.skip(k as int)[0] == teams@[k as int]);
                assert(teams@.skip(k as int).drop_first() =~= teams@.skip(k + 1));
                if text::str_eq(teams[k].0.as_str(), id) {
                    assert(first_team_name(teams@.skip(k as int), id@) == Some(teams@[k as int].1@));
                    return teams[k].1.clone();
                }
                k = k + 1;
            }
            hint
        },
        TeamCache::NotCached => hint,
        TeamCache::Unreadable => {
            let mut r = text::owned(id);
            r.append(" (team cache unreadable)");
            r
        },
    }
}

} // verus!

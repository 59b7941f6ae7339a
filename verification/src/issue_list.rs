//! The pure parts of `issue list`: the JQL it composes from its flags, the
//! checks made before any request, and the status names it offers.
use vstd::prelude::*;
use vstd::string::StringSliceAdditionalSpecFns;

use crate::error::JrError;
use crate::jql;
use crate::partial_match;
use crate::partial_match::MatchResult;
use crate::ordered;
use crate::text;
use crate::types::jira::IssueTypeWithStatuses;

verus! {

// ───────────────────────────── status names ─────────────────────────────

/// Every status name used by one of the issue types.
pub open spec fn all_status_names(its: Seq<IssueTypeWithStatuses>) -> Set<Seq<char>> {
    Set::new(
        |n: Seq<char>|
            exists|a: int, b: int|
                0 <= a < its.len() && 0 <= b < its[a].statuses@.len() && n
                    == #[trigger] its[a].statuses@[b].name@,
    )
}

/// The status names of the first `a` issue types and the first `b`
/// statuses of issue type `a`.
pub open spec fn names_seen(its: Seq<IssueTypeWithStatuses>, a: int, b: int) -> Set<Seq<char>> {
    Set::new(
        |n: Seq<char>|
            exists|x: int, y: int|
                0 <= x < its.len() && 0 <= y < its[x].statuses@.len() && (x < a || (x == a && y
                    < b)) && n == #[trigger] its[x].statuses@[y].name@,
    )
}

/// The distinct status names of a project's issue types, sorted.
pub fn extract_unique_status_names(issue_types: &[IssueTypeWithStatuses]) -> (r: Vec<String>)
    ensures
        ordered::strictly_sorted(text::views(r@)),
        text::views(r@).to_set() == all_status_names(issue_types@),
{
    let ghost its = issue_types@;
    let mut names: Vec<String> = Vec::new();
    let mut a: usize = 0;
    assert(text::views(names@).to_set() =~= names_seen(its, 0, 0));
    while a < issue_types.len()
        invariant
            a <= its.len(),
            its == issue_types@,
            ordered::strictly_sorted(text::views(names@)),
            text::views(names@).to_set() == names_seen(its, a as int, 0),
        decreases its.len() - a,
    {
        let statuses = &issue_types[a].statuses;
        let mut b: usize = 0;
        while b < statuses.len()
            invariant
                a < its.len(),
                its == issue_types@,
                statuses@ == its[a as int].statuses@,
                b <= statuses@.len(),
                ordered::strictly_sorted(text::views(names@)),
                text::views(names@).to_set() == names_seen(its, a as int, b as int),
            decreases statuses@.len() - b,
        {
            let ghost before = text::views(names@).to_set();
            let n = statuses[b].name.clone();
            let ghost nv = n@;
            ordered::insert_sorted_unique(&mut names, n);
            assert(names_seen(its, a as int, b + 1) =~= before.insert(nv)) by {
                assert(nv == its[a as int].statuses@[b as int].name@);
            }
            b = b + 1;
        }
        assert(names_seen(its, a as int, statuses@.len() as int) =~= names_seen(its, a + 1, 0));
        a = a + 1;
    }
    assert(names_seen(its, its.len() as int, 0) =~= all_status_names(its));
    names
}

// ───────────────────────────── JQL ─────────────────────────────

/// The guard message when nothing scopes the search.
pub const NO_FILTERS_SPECIFIED_MSG: &'static str = "No project or filters specified. Use --project, --assignee, --reporter, --status, --open, --team, --recent, --created-after, --created-before, --updated-after, --updated-before, --asset, --component, --updated-recent, or --jql. You can also set a default project in .jr.toml or run \"jr init\".";

/// The ordering of a search that was given its own JQL.
pub const JQL_ORDER_BY: &'static str = "updated DESC";

/// The project scope clause.
pub open spec fn project_clause(pk: Seq<char>) -> Seq<char> {
    "project = \""@ + jql::escaped(pk) + "\""@
}

/// The base clauses of a search given with `--jql`: the project scope
/// when there is a project, then the JQL without its `ORDER BY`, in
/// parentheses, unless nothing is left of it.
pub open spec fn jql_base_parts(q: Seq<char>, pk: Option<Seq<char>>) -> Seq<Seq<char>> {
    let stripped = jql::order_by_stripped(q);
    let scope = match pk {
        Some(p) => seq![project_clause(p)],
        None => Seq::empty(),
    };
    if stripped.len() > 0 {
        scope.push("("@ + stripped + ")"@)
    } else {
        scope
    }
}

pub open spec fn opt_str_view(o: Option<&str>) -> Option<Seq<char>> {
    match o {
        Some(s) => Some(s@),
        None => None,
    }
}

/// Build the base JQL parts when `--jql` is given, and the ordering.
pub fn build_jql_base_parts(jql_text: &str, project_key: Option<&str>) -> (r: (
    Vec<String>,
    &'static str,
))
    ensures
        text::views(r.0@) == jql_base_parts(jql_text@, opt_str_view(project_key)),
        r.1@ == JQL_ORDER_BY@,
{
    let stripped = jql::strip_order_by(jql_text);
    let mut parts: Vec<String> = Vec::new();
    if let Some(pk) = project_key {
        let mut p = String::from_str("project = \"");
        let esc = jql::escape_value(pk);
        p.append(esc.as_str());
        p.append("\"");
        parts.push(p);
    }
    assert(text::views(parts@) =~= match opt_str_view(project_key) {
        Some(p) => seq![project_clause(p)],
        None => Seq::<Seq<char>>::empty(),
    });
    if stripped.unicode_len() > 0 {
        let ghost before = text::views(parts@);
        let mut w = String::from_str("(");
        w.append(stripped);
        w.append(")");
        parts.push(w);
        assert(text::views(parts@) =~= before.push("("@ + stripped@ + ")"@));
    }
    (parts, JQL_ORDER_BY)
}

/// The flag values `build_filter_clauses` composes, already resolved to
/// JQL fragments.
pub struct FilterOptions<'a> {
    pub assignee_jql: Option<&'a str>,
    pub reporter_jql: Option<&'a str>,
    pub status: Option<&'a str>,
    pub team_clause: Option<&'a str>,
    pub recent: Option<&'a str>,
    /// Slots in immediately after `recent`, before `asset_clause`.
    pub updated_recent: Option<&'a str>,
    pub open: bool,
    pub asset_clause: Option<&'a str>,
    /// Zero, one or two composed `--component` clauses; they come after
    /// `asset_clause` and before the date ranges.
    pub component_clauses: &'a [String],
    pub created_after_clause: Option<&'a str>,
    pub created_before_clause: Option<&'a str>,
    pub updated_after_clause: Option<&'a str>,
    pub updated_before_clause: Option<&'a str>,
}

/// `prefix + x + suffix` when the option holds `x`; nothing otherwise.
pub open spec fn opt_part(o: Option<&str>, prefix: Seq<char>, suffix: Seq<char>) -> Seq<Seq<char>> {
    match o {
        Some(x) => seq![prefix + x@ + suffix],
        None => Seq::empty(),
    }
}

/// The filter clauses, in their fixed order.
pub open spec fn filter_clauses(o: FilterOptions) -> Seq<Seq<char>> {
    opt_part(o.assignee_jql, "assignee = "@, ""@) + opt_part(o.reporter_jql, "reporter = "@, ""@)
        + match o.status {
        Some(s) => seq!["status = \""@ + jql::escaped(s@) + "\""@],
        None => Seq::empty(),
    } + if o.open {
        seq!["statusCategory != Done"@]
    } else {
        Seq::empty()
    } + opt_part(o.team_clause, ""@, ""@) + opt_part(o.recent, "created >= -"@, ""@) + opt_part(
        o.updated_recent,
        "updated >= -"@,
        ""@,
    ) + opt_part(o.asset_clause, ""@, ""@) + text::views(o.component_clauses@) + opt_part(
        o.created_after_clause,
        ""@,
        ""@,
    ) + opt_part(o.created_before_clause, ""@, ""@) + opt_part(o.updated_after_clause, ""@, ""@)
        + opt_part(o.updated_before_clause, ""@, ""@)
}

fn push_opt(parts: &mut Vec<String>, o: Option<&str>, prefix: &str, suffix: &str)
    ensures
        text::views(final(parts)@) == text::views(old(parts)@) + opt_part(o, prefix@, suffix@),
{
    let ghost before = text::views(parts@);
    match o {
        Some(x) => {
            let mut p = String::from_str(prefix);
            p.append(x);
            p.append(suffix);
            let ghost pv = p@;
            parts.push(p);
            assert(text::views(parts@) =~= before + seq![pv]);
        },
        None => {
            assert(text::views(parts@) =~= before + Seq::<Seq<char>>::empty());
        },
    }
}

/// Build the JQL filter clauses from the resolved flag values.
pub fn build_filter_clauses(opts: FilterOptions<'_>) -> (r: Vec<String>)
    ensures
        text::views(r@) == filter_clauses(opts),
{
    let mut parts: Vec<String> = Vec::new();
    assert(text::views(parts@) =~= Seq::<Seq<char>>::empty());
    push_opt(&mut parts, opts.assignee_jql, "assignee = ", "");
    assert(text::views(parts@) =~= opt_part(opts.assignee_jql, "assignee = "@, ""@));
    push_opt(&mut parts, opts.reporter_jql, "reporter = ", "");
    let ghost s1 = text::views(parts@);
    match opts.status {
        Some(s) => {
            let mut p = String::from_str("status = \"");
            let esc = jql::escape_value(s);
            p.append(esc.as_str());
            p.append("\"");
            let ghost pv = p@;
            parts.push(p);
            assert(text::views(parts@) =~= s1 + seq![pv]);
        },
        None => {
            assert(text::views(parts@) =~= s1 + Seq::<Seq<char>>::empty());
        },
    }
    let ghost s2 = text::views(parts@);
    if opts.open {
        parts.push(String::from_str("statusCategory != Done"));
        assert(text::views(parts@) =~= s2 + seq!["statusCategory != Done"@]);
    } else {
        assert(text::views(parts@) =~= s2 + Seq::<Seq<char>>::empty());
    }
    push_opt(&mut parts, opts.team_clause, "", "");
    push_opt(&mut parts, opts.recent, "created >= -", "");
    push_opt(&mut parts, opts.updated_recent, "updated >= -", "");
    push_opt(&mut parts, opts.asset_clause, "", "");
    let ghost s3 = text::views(parts@);
    let mut i: usize = 0;
    while i < opts.component_clauses.len()
        invariant
            i <= opts.component_clauses@.len(),
            text::views(parts@) == s3 + text::views(opts.component_clauses@).take(i as int),
        decreases opts.component_clauses@.len() - i,
    {
        let ghost before = text::views(parts@);
        parts.push(opts.component_clauses[i].clone());
        assert(text::views(parts@) =~= before.push(opts.component_clauses@[i as int]@));
        assert(text::views(opts.component_clauses@).take(i + 1) =~= text::views(
            opts.component_clauses@,
        ).take(i as int).push(opts.component_clauses@[i as int]@));
        assert(s3 + text::views(opts.component_clauses@).take(i + 1) =~= (s3 + text::views(
            opts.component_clauses@,
        ).take(i as int)).push(opts.component_clauses@[i as int]@));
        i = i + 1;
    }
    assert(text::views(opts.component_clauses@).take(opts.component_clauses@.len() as int)
        =~= text::views(opts.component_clauses@));
    push_opt(&mut parts, opts.created_after_clause, "", "");
    push_opt(&mut parts, opts.created_before_clause, "", "");
    push_opt(&mut parts, opts.updated_after_clause, "", "");
    push_opt(&mut parts, opts.updated_before_clause, "", "");
    parts
}

/// The story-points field to show: the configured one when `--points`
/// was given, none otherwise (a missing configuration is warned about by
/// the caller).
pub fn resolve_show_points<'a>(show_points: bool, sp_field_id: Option<&'a str>) -> (r: Option<&'a str>)
    ensures
        r == if show_points {
            sp_field_id
        } else {
            None
        },
{
    if show_points {
        sp_field_id
    } else {
        None
    }
}

// ───────────────────────────── --component checks ─────────────────────────────

/// The value `none` (any ASCII case).
pub open spec fn is_none_value(v: Seq<char>) -> bool {
    text::eq_ignore_ascii_case(v, "none"@)
}

/// The `all:` form.
pub open spec fn is_all_value(v: Seq<char>) -> bool {
    text::has_prefix(v, "all:"@)
}

pub open spec fn count_none(vs: Seq<Seq<char>>) -> nat
    decreases vs.len(),
{
    if vs.len() == 0 {
        0
    } else {
        count_none(vs.drop_last()) + if is_none_value(vs.last()) {
            1nat
        } else {
            0nat
        }
    }
}

pub open spec fn count_all(vs: Seq<Seq<char>>) -> nat
    decreases vs.len(),
{
    if vs.len() == 0 {
        0
    } else {
        count_all(vs.drop_last()) + if is_all_value(vs.last()) {
            1nat
        } else {
            0nat
        }
    }
}

/// What is wrong with a `--component` value list before any request is
/// made, if anything: `none` combined with other values, `all:` given
/// twice or combined with other values, or no project to resolve in.
pub open spec fn component_preflight_problem(vs: Seq<Seq<char>>, has_project: bool) -> Option<
    Seq<char>,
> {
    if count_none(vs) > 0 && vs.len() > 1 {
        Some("--component none cannot be combined with other --component values."@)
    } else if count_all(vs) > 1 {
        Some(
            "--component all: may only be specified once; comma-separate multiple names within one all: value."@,
        )
    } else if count_all(vs) == 1 && vs.len() > 1 {
        Some("--component all: cannot be combined with other --component values."@)
    } else if !has_project {
        if vs.len() == 1 && is_none_value(vs[0]) {
            Some(
                "--component none requires --project (or a configured default project) to avoid an unrestricted org-wide search."@,
            )
        } else {
            Some(
                "--component requires --project (or a configured default project) to resolve component names."@,
            )
        }
    } else {
        None
    }
}

/// Check the `--component` values' combination and the project scope
/// before any request.
pub fn validate_component_preflight(values: &[String], project_key: Option<&str>) -> (r: Result<
    (),
    JrError,
>)
    ensures
        match component_preflight_problem(text::views(values@), project_key is Some) {
            None => r is Ok,
            Some(m) => r matches Err(JrError::UserError(x)) && x@ == m,
        },
{
    let ghost vs = text::views(values@);
    let mut none_count: usize = 0;
    let mut all_count: usize = 0;
    let mut i: usize = 0;
    while i < values.len()
        invariant
            i <= values@.len(),
            vs == text::views(values@),
            none_count == count_none(vs.take(i as int)),
            all_count == count_all(vs.take(i as int)),
            none_count <= i,
            all_count <= i,
        decreases values@.len() - i,
    {
        assert(vs.take(i + 1).drop_last() =~= vs.take(i as int));
        assert(vs.take(i + 1).last() == values@[i as int]@);
        if text::str_eq_ignore_ascii_case(values[i].as_str(), "none") {
            none_count = none_count + 1;
        }
        if text::str_starts_with(values[i].as_str(), "all:") {
            all_count = all_count + 1;
        }
        i = i + 1;
    }
    assert(vs.take(values@.len() as int) =~= vs);
    if none_count > 0 && values.len() > 1 {
        return Err(
            JrError::UserError(
                String::from_str("--component none cannot be combined with other --component values."),
            ),
        );
    }
    if all_count > 1 {
        return Err(
            JrError::UserError(
                String::from_str(
                    "--component all: may only be specified once; comma-separate multiple names within one all: value.",
                ),
            ),
        );
    }
    if all_count == 1 && values.len() > 1 {
        return Err(
            JrError::UserError(
                String::from_str("--component all: cannot be combined with other --component values."),
            ),
        );
    }
    if project_key.is_none() {
        let is_sole_none = values.len() == 1 && text::str_eq_ignore_ascii_case(
            values[0].as_str(),
            "none",
        );
        if is_sole_none {
            return Err(
                JrError::UserError(
                    String::from_str(
                        "--component none requires --project (or a configured default project) to avoid an unrestricted org-wide search.",
                    ),
                ),
            );
        } else {
            return Err(
                JrError::UserError(
                    String::from_str(
                        "--component requires --project (or a configured default project) to resolve component names.",
                    ),
                ),
            );
        }
    }
    Ok(())
}

// ───────────────────────────── the list's guards and assembly ─────────────────────────────

/// Which of `issue list`'s scoping sources were given.
pub struct ListScope {
    pub has_project: bool,
    pub has_board: bool,
    pub has_jql: bool,
    pub has_status: bool,
    pub has_team: bool,
    pub has_recent: bool,
    pub has_updated_recent: bool,
    pub open: bool,
    pub has_asset: bool,
    pub has_component: bool,
    pub has_created_after: bool,
    pub has_created_before: bool,
    pub has_updated_after: bool,
    pub has_updated_before: bool,
    pub has_assignee: bool,
    pub has_reporter: bool,
}

/// `--updated-recent` is the only filter and no project scopes the search
/// (a configured board is not considered here).
pub open spec fn only_updated_recent(f: ListScope) -> bool {
    &&& f.has_updated_recent
    &&& !f.has_project
    &&& !f.has_jql
    &&& !f.has_status
    &&& !f.has_team
    &&& !f.has_recent
    &&& !f.open
    &&& !f.has_asset
    &&& !f.has_component
    &&& !f.has_created_after
    &&& !f.has_created_before
    &&& !f.has_updated_after
    &&& !f.has_updated_before
    &&& !f.has_assignee
    &&& !f.has_reporter
}

/// Law: `--updated-recent` counts as the lone filter exactly when it is
/// given and no project, `--jql`, `--status`, `--team`, `--recent`,
/// `--open`, `--asset`, `--component`, date filter, `--assignee` or
/// `--reporter` is — any one of those scopes the search by itself.
pub proof fn law_any_other_filter_scopes_the_search(f: ListScope)
    ensures
        only_updated_recent(f) <==> (f.has_updated_recent && !f.has_project && !f.has_jql
            && !f.has_status && !f.has_team && !f.has_recent && !f.open && !f.has_asset
            && !f.has_component && !f.has_created_after && !f.has_created_before
            && !f.has_updated_after && !f.has_updated_before && !f.has_assignee
            && !f.has_reporter),
        f.has_assignee ==> !only_updated_recent(f),
        f.has_reporter ==> !only_updated_recent(f),
        f.has_status ==> !only_updated_recent(f),
        f.has_project ==> !only_updated_recent(f),
        !f.has_updated_recent ==> !only_updated_recent(f),
{
}

fn is_only_updated_recent(f: &ListScope) -> (b: bool)
    ensures
        b == only_updated_recent(*f),
{
    f.has_updated_recent && !f.has_project && !f.has_jql && !f.has_status && !f.has_team
        && !f.has_recent && !f.open && !f.has_asset && !f.has_component && !f.has_created_after
        && !f.has_created_before && !f.has_updated_after && !f.has_updated_before
        && !f.has_assignee && !f.has_reporter
}

fn no_filters_error() -> (e: JrError)
    ensures
        e matches JrError::UserError(m) && m@ == NO_FILTERS_SPECIFIED_MSG@,
{
    JrError::UserError(String::from_str(NO_FILTERS_SPECIFIED_MSG))
}

/// The check made before any request: `--updated-recent` alone, with no
/// project and no configured board, does not scope a search.
pub fn check_updated_recent_scope(f: &ListScope) -> (r: Result<(), JrError>)
    ensures
        r is Err <==> only_updated_recent(*f) && !f.has_board,
        r matches Err(e) ==> (e matches JrError::UserError(m) && m@ == NO_FILTERS_SPECIFIED_MSG@),
{
    if is_only_updated_recent(f) && !f.has_board {
        Err(no_filters_error())
    } else {
        Ok(())
    }
}

/// `--fields` picks the JSON fields, so it needs `--output json`.
pub fn check_fields_output(fields_given: bool, output_json: bool) -> (r: Result<(), JrError>)
    ensures
        r is Err <==> fields_given && !output_json,
        r matches Err(e) ==> (e matches JrError::UserError(m) && m@
            == "--fields requires --output json."@),
{
    if fields_given && !output_json {
        Err(JrError::UserError(String::from_str("--fields requires --output json.")))
    } else {
        Ok(())
    }
}

/// What is wrong with a relative-date flag's value, if it is given.
pub open spec fn relative_date_problem(d: Option<Seq<char>>) -> Option<Seq<char>> {
    match d {
        Some(s) => if jql::is_jql_duration(s) {
            None
        } else {
            Some(jql::invalid_duration_message(s))
        },
        None => None,
    }
}

/// The first problem among the `issue list` filter flags that are checked
/// before any request, in this order: the `--component` combination and
/// scope (when there are `--component` values); `--recent`;
/// `--updated-recent`; `--updated-recent` as the only filter with neither
/// project nor board.
pub open spec fn list_filters_problem(
    components: Seq<Seq<char>>,
    has_project: bool,
    recent: Option<Seq<char>>,
    updated_recent: Option<Seq<char>>,
    scope: ListScope,
) -> Option<Seq<char>> {
    if components.len() > 0 && component_preflight_problem(components, has_project) is Some {
        component_preflight_problem(components, has_project)
    } else if relative_date_problem(recent) is Some {
        relative_date_problem(recent)
    } else if relative_date_problem(updated_recent) is Some {
        relative_date_problem(updated_recent)
    } else if only_updated_recent(scope) && !scope.has_board {
        Some(NO_FILTERS_SPECIFIED_MSG@)
    } else {
        None
    }
}

/// The checks of `issue list`'s filter flags that need no request, made in
/// the order the command makes them, so that a refused combination costs no
/// request. Every refusal is a usage error.
pub fn check_list_filters(
    components: &[String],
    project_key: Option<&str>,
    recent: Option<&str>,
    updated_recent: Option<&str>,
    scope: &ListScope,
) -> (r: Result<(), JrError>)
    ensures
        match list_filters_problem(
            text::views(components@),
            project_key is Some,
            match recent {
                Some(s) => Some(s@),
                None => None,
            },
            match updated_recent {
                Some(s) => Some(s@),
                None => None,
            },
            *scope,
        ) {
            None => r is Ok,
            Some(m) => r matches Err(JrError::UserError(x)) && x@ == m,
        },
{
    if components.len() > 0 {
        match validate_component_preflight(components, project_key) {
            Ok(()) => {},
            Err(e) => {
                return Err(e);
            },
        }
    }
    if let Some(d) = recent {
        match jql::validate_duration(d) {
            Ok(()) => {},
            Err(m) => {
                return Err(JrError::UserError(m));
            },
        }
    }
    if let Some(d) = updated_recent {
        match jql::validate_duration(d) {
            Ok(()) => {},
            Err(m) => {
                return Err(JrError::UserError(m));
            },
        }
    }
    check_updated_recent_scope(scope)
}

/// The check made once the base clauses are known: a board that yielded no
/// scoping clause does not make `--updated-recent` alone a scoped search.
pub fn check_base_scope(f: &ListScope, base_parts: &[String]) -> (r: Result<(), JrError>)
    ensures
        r is Err <==> base_parts@.len() == 0 && only_updated_recent(*f),
        r matches Err(e) ==> (e matches JrError::UserError(m) && m@ == NO_FILTERS_SPECIFIED_MSG@),
{
    if base_parts.len() == 0 && is_only_updated_recent(f) {
        Err(no_filters_error())
    } else {
        Ok(())
    }
}

/// The search's JQL: the base clauses and the filter clauses joined by
/// ` AND `, then the ordering.
pub open spec fn list_jql(parts: Seq<Seq<char>>, order_by: Seq<char>) -> Seq<char> {
    text::join_seq(parts, " AND "@) + " ORDER BY "@ + order_by
}

/// Combine the base and filter clauses into the search's JQL; with no
/// clause at all the search would be unbounded, and is refused.
pub fn assemble_list_jql(base_parts: Vec<String>, filter_parts: Vec<String>, order_by: &str) -> (r:
    Result<String, JrError>)
    ensures
        (text::views(base_parts@) + text::views(filter_parts@)).len() == 0 ==> (r matches Err(
            JrError::UserError(m),
        ) && m@ == NO_FILTERS_SPECIFIED_MSG@),
        (text::views(base_parts@) + text::views(filter_parts@)).len() > 0 ==> (r matches Ok(q)
            && q@ == list_jql(text::views(base_parts@) + text::views(filter_parts@), order_by@)),
{
    let ghost target = text::views(base_parts@) + text::views(filter_parts@);
    let mut all = base_parts;
    let mut i: usize = 0;
    let ghost b = text::views(all@);
    while i < filter_parts.len()
        invariant
            i <= filter_parts@.len(),
            target == b + text::views(filter_parts@),
            text::views(all@) == b + text::views(filter_parts@).take(i as int),
        decreases filter_parts@.len() - i,
    {
        let ghost before = text::views(all@);
        all.push(filter_parts[i].clone());
        assert(text::views(all@) =~= before.push(filter_parts@[i as int]@));
        assert(b + text::views(filter_parts@).take(i + 1) =~= (b + text::views(filter_parts@).take(
            i as int,
        )).push(filter_parts@[i as int]@));
        i = i + 1;
    }
    assert(text::views(filter_parts@).take(filter_parts@.len() as int) =~= text::views(
        filter_parts@,
    ));
    if all.len() == 0 {
        return Err(no_filters_error());
    }
    let mut q = text::join(&all, " AND ");
    q.append(" ORDER BY ");
    q.append(order_by);
    Ok(q)
}

/// What a configured board contributes to a search without `--jql`.
pub enum BoardScope {
    /// No board is configured.
    NoBoard,
    /// A scrum board with an active sprint (its id).
    ActiveSprint(u64),
    /// A scrum board without an active sprint.
    ScrumWithoutSprint,
    /// A kanban (or any non-scrum) board.
    Kanban,
}

/// The base clauses and ordering of a search without `--jql`: the active
/// sprint in rank order; otherwise the project scope, with open issues
/// only in rank order on a kanban board, or by last update elsewhere.
pub open spec fn board_base_parts(pk: Option<Seq<char>>, board: BoardScope) -> (
    Seq<Seq<char>>,
    Seq<char>,
) {
    let scope = match pk {
        Some(p) => seq![project_clause(p)],
        None => Seq::empty(),
    };
    match board {
        BoardScope::ActiveSprint(id) => (seq!["sprint = "@ + text::decimal(id as nat)], "rank ASC"@),
        BoardScope::Kanban => (scope.push("statusCategory != Done"@), "rank ASC"@),
        _ => (scope, "updated DESC"@),
    }
}

/// The base clauses and ordering of a search without `--jql`.
pub fn build_board_base_parts(project_key: Option<&str>, board: BoardScope) -> (r: (
    Vec<String>,
    &'static str,
))
    ensures
        text::views(r.0@) == board_base_parts(opt_str_view(project_key), board).0,
        r.1@ == board_base_parts(opt_str_view(project_key), board).1,
{
    let mut parts: Vec<String> = Vec::new();
    match board {
        BoardScope::ActiveSprint(id) => {
            let mut p = String::from_str("sprint = ");
            let n = text::u64_to_string(id);
            p.append(n.as_str());
            let ghost pv = p@;
            parts.push(p);
            assert(text::views(parts@) =~= seq![pv]);
            return (parts, "rank ASC");
        },
        _ => {},
    }
    if let Some(pk) = project_key {
        let mut p = String::from_str("project = \"");
        let esc = jql::escape_value(pk);
        p.append(esc.as_str());
        p.append("\"");
        parts.push(p);
    }
    let ghost scope = text::views(parts@);
    assert(scope =~= match opt_str_view(project_key) {
        Some(p) => seq![project_clause(p)],
        None => Seq::<Seq<char>>::empty(),
    });
    match board {
        BoardScope::Kanban => {
            parts.push(String::from_str("statusCategory != Done"));
            assert(text::views(parts@) =~= scope.push("statusCategory != Done"@));
            (parts, "rank ASC")
        },
        _ => (parts, "updated DESC"),
    }
}

/// Whether a board's type is scrum (compared case-insensitively).
pub fn is_scrum_board(board_type: &str) -> (b: bool)
    ensures
        b == (text::lowercase_of(board_type@) == "scrum"@),
{
    let l = text::lowercase(board_type);
    text::str_eq(l.as_str(), "scrum")
}

/// The error for a `--project` that does not exist.
pub fn project_not_found_error(project_key: &str) -> (e: JrError)
    ensures
        e matches JrError::UserError(m) && m@ == "Project \""@ + project_key@
            + "\" not found. Run \"jr project list\" to see available projects."@,
{
    let mut m = String::from_str("Project \"");
    m.append(project_key);
    m.append("\" not found. Run \"jr project list\" to see available projects.");
    JrError::UserError(m)
}

/// How `--status` resolves against the statuses available: a unique
/// exact match (or the first of several equal up to case); otherwise an
/// ambiguity or a miss, which name the candidates.
pub open spec fn status_resolution(
    input: Seq<char>,
    valid: Seq<Seq<char>>,
    pk: Option<Seq<char>>,
) -> Result<Seq<char>, Seq<char>> {
    match partial_match::match_outcome(input, valid) {
        partial_match::MatchView::Exact(n) => Ok(n),
        partial_match::MatchView::ExactMultiple(ns) => Ok(ns[0]),
        partial_match::MatchView::Ambiguous(ms) => Err(
            "Ambiguous status \""@ + input + "\". Matches: "@ + text::join_seq(ms, ", "@),
        ),
        partial_match::MatchView::NoMatch(all) => Err(
            "No status matching \""@ + input + "\""@ + match pk {
                Some(p) => " for project "@ + p,
                None => ""@,
            } + ". Available: "@ + text::join_seq(all, ", "@),
        ),
    }
}

/// Resolve `--status` to the exact name of an available status.
pub fn resolve_status_name(status_input: &str, valid_statuses: &[String], project_key: Option<
    &str,
>) -> (r: Result<String, JrError>)
    ensures
        match status_resolution(
            status_input@,
            text::views(valid_statuses@),
            opt_str_view(project_key),
        ) {
            Ok(n) => r matches Ok(s) && s@ == n,
            Err(m) => r matches Err(JrError::UserError(x)) && x@ == m,
        },
{
    proof {
        partial_match::lemma_keep_members(
            text::views(valid_statuses@),
            partial_match::same_lowercase(status_input@),
        );
    }
    match partial_match::partial_match(status_input, valid_statuses) {
        MatchResult::Exact(name) => Ok(name),
        MatchResult::ExactMultiple(names) => {
            assert(text::views(names@)[0] == names@[0]@);
            Ok(names[0].clone())
        },
        MatchResult::Ambiguous(matches) => {
            let mut m = String::from_str("Ambiguous status \"");
            m.append(status_input);
            m.append("\". Matches: ");
            let joined = text::join(&matches, ", ");
            m.append(joined.as_str());
            Err(JrError::UserError(m))
        },
        MatchResult::NoMatch(all) => {
            proof {
                reveal_strlit("");
            }
            let mut m = String::from_str("No status matching \"");
            m.append(status_input);
            m.append("\"");
            if let Some(pk) = project_key {
                m.append(" for project ");
                m.append(pk);
            }
            m.append(". Available: ");
            let joined = text::join(&all, ", ");
            m.append(joined.as_str());
            assert(m@ =~= "No status matching \""@ + status_input@ + "\""@ + match opt_str_view(
                project_key,
            ) {
                Some(p) => " for project "@ + p,
                None => ""@,
            } + ". Available: "@ + text::join_seq(text::views(all@), ", "@));
            Err(JrError::UserError(m))
        },
    }
}

/// The note printed when more results exist than were shown: with the
/// approximate total when it is known and positive.
pub open spec fn more_results_text(shown: nat, total: Option<u64>) -> Seq<char> {
    match total {
        Some(t) => if t > 0 {
            "Showing "@ + text::decimal(shown) + " of ~"@ + text::decimal(t as nat)
                + " results. Use --limit or --all to see more."@
        } else {
            "Showing "@ + text::decimal(shown) + " results. Use --limit or --all to see more."@
        },
        None => "Showing "@ + text::decimal(shown) + " results. Use --limit or --all to see more."@,
    }
}

/// The note printed when more results exist than were shown.
pub fn more_results_hint(shown: u64, total: Option<u64>) -> (r: String)
    ensures
        r@ == more_results_text(shown as nat, total),
{
    let mut m = String::from_str("Showing ");
    let n = text::u64_to_string(shown);
    m.append(n.as_str());
    match total {
        Some(t) => {
            if t > 0 {
                m.append(" of ~");
                let tt = text::u64_to_string(t);
                m.append(tt.as_str());
            }
        },
        None => {},
    }
    m.append(" results. Use --limit or --all to see more.");
    m
}

} // verus!

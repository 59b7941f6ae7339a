//! Resolving the mentions in a write command's text: which distinct
//! mentions there are, what an `@Name` search is narrowed to, and what a
//! failed lookup is reported as.
use vstd::prelude::*;

use crate::error::JrError;
use crate::user::is_not_found;

use crate::partial_match;
use crate::partial_match::MatchResult;
use crate::partial_match::MatchView;
use crate::text;
use crate::types::jira::User;

verus! {

/// The display names of the users, in order.
pub open spec fn display_names(us: Seq<User>) -> Seq<Seq<char>> {
    us.map_values(|u: User| u.display_name@)
}

/// The Unicode lower-casing of each name.
pub open spec fn lowered(ms: Seq<Seq<char>>) -> Seq<Seq<char>> {
    ms.map_values(|m: Seq<char>| text::lowercase_of(m))
}

/// The lower-cased names a user's lower-cased display name is compared
/// with, for a match outcome: the one match (exact, or a lone substring
/// hit); the query when several names matched it exactly; every substring
/// match when there are several; or none.
pub open spec fn target_names(outcome: MatchView, query: Seq<char>) -> Seq<Seq<char>> {
    match outcome {
        MatchView::Exact(m) => seq![text::lowercase_of(m)],
        MatchView::ExactMultiple(_) => seq![text::lowercase_of(query)],
        MatchView::Ambiguous(ms) => lowered(ms),
        MatchView::NoMatch(_) => Seq::empty(),
    }
}

/// Whether a user survives the narrowing.
pub open spec fn kept_for(outcome: MatchView, query: Seq<char>, u: User) -> bool {
    target_names(outcome, query).contains(text::lowercase_of(u.display_name@))
}

/// The users that survive, in order.
pub open spec fn kept_users(us: Seq<User>, outcome: MatchView, query: Seq<char>) -> Seq<User>
    decreases us.len(),
{
    if us.len() == 0 {
        Seq::empty()
    } else if kept_for(outcome, query, us.last()) {
        kept_users(us.drop_last(), outcome, query).push(us.last())
    } else {
        kept_users(us.drop_last(), outcome, query)
    }
}

fn contains_view(v: &Vec<String>, x: &str) -> (b: bool)
    ensures
        b == text::views(v@).contains(x@),
{
    let mut i: usize = 0;
    while i < v.len()
        invariant
            i <= v@.len(),
            forall|j: int| 0 <= j < i ==> (#[trigger] v@[j])@ != x@,
        decreases v@.len() - i,
    {
        if text::str_eq(v[i].as_str(), x) {
            assert(text::views(v@)[i as int] == x@);
            return true;
        }
        i = i + 1;
    }
    assert forall|j: int| 0 <= j < text::views(v@).len() implies text::views(v@)[j] != x@ by {
        assert(text::views(v@)[j] == v@[j]@);
    }
    false
}

/// Reduce the active users to those whose display name case-insensitively
/// matches `query`, classified as `partial_match` classifies the names: the
/// one match (with every user sharing its Unicode-lowercased name), the
/// substring matches, or nobody.
pub fn filter_by_name_match(active_users: Vec<User>, query: &str) -> (r: Vec<User>)
    ensures
        r@ == kept_users(
            active_users@,
            partial_match::match_outcome(query@, display_names(active_users@)),
            query@,
        ),
{
    let ghost us = active_users@;
    let mut names: Vec<String> = Vec::new();
    let mut i: usize = 0;
    while i < active_users.len()
        invariant
            i <= active_users@.len(),
            us == active_users@,
            names@.len() == i,
            forall|j: int| 0 <= j < i ==> (#[trigger] names@[j])@ == us[j].display_name@,
        decreases active_users@.len() - i,
    {
        names.push(active_users[i].display_name.clone());
        i = i + 1;
    }
    assert(text::views(names@) =~= display_names(us));
    let outcome = partial_match::partial_match(query, names.as_slice());
    let ghost ov = outcome@;
    let mut targets: Vec<String> = Vec::new();
    match &outcome {
        MatchResult::Exact(m) => {
            targets.push(text::lowercase(m.as_str()));
            assert(text::views(targets@) =~= target_names(ov, query@));
        },
        MatchResult::ExactMultiple(_) => {
            targets.push(text::lowercase(query));
            assert(text::views(targets@) =~= target_names(ov, query@));
        },
        MatchResult::Ambiguous(ms) => {
            let ghost lm = lowered(text::views(ms@));
            let mut j: usize = 0;
            while j < ms.len()
                invariant
                    j <= ms@.len(),
                    lm == lowered(text::views(ms@)),
                    text::views(targets@) == lm.take(j as int),
                decreases ms@.len() - j,
            {
                let ghost before = targets@;
                let l = text::lowercase(ms[j].as_str());
                let ghost lv = l@;
                targets.push(l);
                assert(text::views(targets@) =~= text::views(before).push(lv));
                assert(lm.take(j + 1) =~= lm.take(j as int).push(lv));
                j = j + 1;
            }
            assert(lm.take(ms@.len() as int) =~= lm);
        },
        MatchResult::NoMatch(_) => {
            assert(text::views(targets@) =~= target_names(ov, query@));
        },
    }
    let mut rest = active_users;
    let mut out: Vec<User> = Vec::new();
    let n = rest.len();
    let mut k: usize = 0;
    while k < n
        invariant
            k <= n == us.len(),
            rest@ == us.skip(k as int),
            out@ == kept_users(us.take(k as int), ov, query@),
            text::views(targets@) == target_names(ov, query@),
        decreases n - k,
    {
        assert(rest@[0] == us[k as int]);
        let u = rest.remove(0);
        assert(rest@ =~= us.skip(k + 1));
        assert(us.take(k + 1).drop_last() =~= us.take(k as int));
        assert(us.take(k + 1).last() == u);
        let lu = text::lowercase(u.display_name.as_str());
        if contains_view(&targets, lu.as_str()) {
            out.push(u);
        }
        k = k + 1;
    }
    assert(us.take(n as int) =~= us);
    out
}


// ───────────────────────────── an `@Name` candidate ─────────────────────────────

/// `s` without its leading `c` characters (`str::trim_start_matches`).
pub open spec fn strip_leading(s: Seq<char>, c: char) -> Seq<char>
    decreases s.len(),
{
    if s.len() > 0 && s[0] == c {
        strip_leading(s.drop_first(), c)
    } else {
        s
    }
}

/// `s` without its leading `c` characters.
pub fn trim_start_char(s: &str, c: char) -> (r: String)
    ensures
        r@ == strip_leading(s@, c),
{
    let v = text::chars_of(s);
    let mut i: usize = 0;
    assert(v@.skip(0) =~= s@);
    while i < v.len() && v[i] == c
        invariant
            i <= v@.len(),
            v@ == s@,
            strip_leading(s@, c) == strip_leading(v@.skip(i as int), c),
        decreases v@.len() - i,
    {
        assert(v@.skip(i as int).drop_first() =~= v@.skip(i + 1));
        i = i + 1;
    }
    text::string_from_chars(v.as_slice().split_at(i).1)
}

/// An account Jira reports as active.
pub open spec fn is_active(u: User) -> bool {
    u.active == Some(true)
}

/// The active users, in order.
pub open spec fn active_users(us: Seq<User>) -> Seq<User>
    decreases us.len(),
{
    if us.len() == 0 {
        Seq::empty()
    } else if is_active(us.last()) {
        active_users(us.drop_last()).push(us.last())
    } else {
        active_users(us.drop_last())
    }
}

/// The search found accounts, and none of them is active.
pub open spec fn all_deactivated(us: Seq<User>) -> bool {
    us.len() > 0 && forall|i: int| 0 <= i < us.len() ==> !is_active(#[trigger] us[i])
}

/// The message when nobody matches `@query`; it says so when the only
/// matching accounts are deactivated.
pub open spec fn no_user_text(query: Seq<char>, deactivated: bool) -> Seq<char> {
    if deactivated {
        "No user found matching \"@"@ + query
            + "\" (a matching account exists but is deactivated) — verify the spelling or use the [~accountid:<id>] form."@
    } else {
        "No user found matching \"@"@ + query
            + "\" — verify the spelling or use the [~accountid:<id>] form."@
    }
}

/// The name the choice among the candidates is made by: the one display
/// name they all share (up to case) when there are several of them, else
/// the query.
pub open spec fn choice_name(candidates: Seq<User>, query: Seq<char>) -> Seq<char> {
    if candidates.len() >= 2 && forall|i: int|
        0 <= i < candidates.len() ==> text::lowercase_of(#[trigger] candidates[i].display_name@)
            == text::lowercase_of(candidates[0].display_name@) {
        candidates[0].display_name@
    } else {
        query
    }
}

/// What resolving one `@Name` mention works with once the user search has
/// answered.
pub struct AtNamePlan {
    /// The name searched for: the mention without its leading `@`s.
    pub query: String,
    /// The active users whose display name matches the query.
    pub candidates: Vec<User>,
    /// The message when no candidate is left.
    pub no_user_message: String,
    /// The name the choice among the candidates is made by.
    pub choice_name: String,
}

/// The query of a mention: its span without the leading `@`s.
pub open spec fn mention_query(span: Seq<char>) -> Seq<char> {
    strip_leading(span, '@')
}

/// The active users among `found` that the name `query` can mean.
pub open spec fn mention_candidates(found: Seq<User>, query: Seq<char>) -> Seq<User> {
    let active = active_users(found);
    kept_users(active, partial_match::match_outcome(query, display_names(active)), query)
}

/// The search's active results, in order.
fn keep_active(found: Vec<User>) -> (r: Vec<User>)
    ensures
        r@ == active_users(found@),
{
    let ghost us = found@;
    let n = found.len();
    let mut rest = found;
    let mut out: Vec<User> = Vec::new();
    let mut k: usize = 0;
    while k < n
        invariant
            k <= n == us.len(),
            rest@ == us.skip(k as int),
            out@ == active_users(us.take(k as int)),
        decreases n - k,
    {
        assert(rest@[0] == us[k as int]);
        let u = rest.remove(0);
        assert(rest@ =~= us.skip(k + 1));
        assert(us.take(k + 1).drop_last() =~= us.take(k as int));
        assert(us.take(k + 1).last() == u);
        if u.active == Some(true) {
            out.push(u);
        }
        k = k + 1;
    }
    assert(us.take(n as int) =~= us);
    out
}

/// Whether the search found accounts and none is active.
fn none_active(found: &Vec<User>) -> (b: bool)
    ensures
        b == all_deactivated(found@),
{
    let mut i: usize = 0;
    while i < found.len()
        invariant
            i <= found@.len(),
            forall|j: int| 0 <= j < i ==> !is_active(#[trigger] found@[j]),
        decreases found@.len() - i,
    {
        if found[i].active == Some(true) {
            return false;
        }
        i = i + 1;
    }
    found.len() > 0
}

/// The name the choice among the candidates is made by.
fn pick_choice_name(candidates: &Vec<User>, query: &str) -> (r: String)
    ensures
        r@ == choice_name(candidates@, query@),
{
    if candidates.len() < 2 {
        return text::owned(query);
    }
    let first = text::lowercase(candidates[0].display_name.as_str());
    let mut i: usize = 1;
    while i < candidates.len()
        invariant
            1 <= i <= candidates@.len(),
            first@ == text::lowercase_of(candidates@[0].display_name@),
            forall|j: int|
                0 <= j < i ==> text::lowercase_of(#[trigger] candidates@[j].display_name@)
                    == first@,
        decreases candidates@.len() - i,
    {
        let l = text::lowercase(candidates[i].display_name.as_str());
        if !text::str_eq(l.as_str(), first.as_str()) {
            return text::owned(query);
        }
        i = i + 1;
    }
    candidates[0].display_name.clone()
}

/// Plan the resolution of the `@Name` mention `span` from the users the
/// search for its name returned.
pub fn plan_at_name(span: &str, found: Vec<User>) -> (r: AtNamePlan)
    ensures
        r.query@ == mention_query(span@),
        r.candidates@ == mention_candidates(found@, r.query@),
        r.no_user_message@ == no_user_text(r.query@, all_deactivated(found@)),
        r.choice_name@ == choice_name(r.candidates@, r.query@),
{
    let query = trim_start_char(span, '@');
    let deactivated = none_active(&found);
    let active = keep_active(found);
    let candidates = filter_by_name_match(active, query.as_str());
    let mut m = String::from_str("No user found matching \"@");
    m.append(query.as_str());
    if deactivated {
        m.append(
            "\" (a matching account exists but is deactivated) — verify the spelling or use the [~accountid:<id>] form.",
        );
    } else {
        m.append("\" — verify the spelling or use the [~accountid:<id>] form.");
    }
    let name = pick_choice_name(&candidates, query.as_str());
    AtNamePlan { query, candidates, no_user_message: m, choice_name: name }
}

// ───────────────────────────── a bracket-form candidate ─────────────────────────────

/// The message for an account id that names no user.
pub open spec fn unknown_account_text(account_id: Seq<char>) -> Seq<char> {
    "Mention target \""@ + account_id
        + "\" not found. The accountId may be invalid, stale, or the user may no longer exist."@
}

/// What a failed lookup of a `[~accountid:<id>]` mention is reported as: a
/// 404 or 400 answer means the account does not exist; any other error
/// stands as it is.
pub fn bracket_lookup_error(account_id: &str, err: JrError) -> (r: JrError)
    ensures
        is_not_found(err) ==> (r matches JrError::UserError(m) && m@ == unknown_account_text(
            account_id@,
        )),
        !is_not_found(err) ==> r == err,
{
    let not_found = match &err {
        JrError::ApiError { status, .. } => *status == 404 || *status == 400,
        _ => false,
    };
    if not_found {
        let mut m = String::from_str("Mention target \"");
        m.append(account_id);
        m.append(
            "\" not found. The accountId may be invalid, stale, or the user may no longer exist.",
        );
        JrError::UserError(m)
    } else {
        err
    }
}

// ───────────────────────────── the distinct mentions ─────────────────────────────

/// The two forms of a mention.
#[derive(PartialEq, Eq, Structural)]
pub enum MentionKind {
    /// `[~accountid:<id>]`
    Bracket,
    /// `@Name`
    AtName,
}

/// A mention found in the text: its form and its text as written.
pub struct MentionCandidate {
    pub kind: MentionKind,
    pub span: String,
}

/// The spans of the mentions of one form, in order.
pub open spec fn spans_of(cs: Seq<MentionCandidate>, bracket: bool) -> Seq<Seq<char>>
    decreases cs.len(),
{
    if cs.len() == 0 {
        Seq::empty()
    } else if (cs.last().kind == MentionKind::Bracket) == bracket {
        spans_of(cs.drop_last(), bracket).push(cs.last().span@)
    } else {
        spans_of(cs.drop_last(), bracket)
    }
}

/// Each span once, where it first occurs.
pub open spec fn first_occurrences(s: Seq<Seq<char>>) -> Seq<Seq<char>>
    decreases s.len(),
{
    if s.len() == 0 {
        Seq::empty()
    } else if first_occurrences(s.drop_last()).contains(s.last()) {
        first_occurrences(s.drop_last())
    } else {
        first_occurrences(s.drop_last()).push(s.last())
    }
}

/// The distinct spans of each form, each where it first occurs: the
/// bracket-form account ids, then the `@Name` tokens. Each is looked up once.
pub fn distinct_mentions(cs: &[MentionCandidate]) -> (r: (Vec<String>, Vec<String>))
    ensures
        text::views(r.0@) == first_occurrences(spans_of(cs@, true)),
        text::views(r.1@) == first_occurrences(spans_of(cs@, false)),
{
    let mut brackets: Vec<String> = Vec::new();
    let mut names: Vec<String> = Vec::new();
    let mut i: usize = 0;
    while i < cs.len()
        invariant
            i <= cs@.len(),
            text::views(brackets@) == first_occurrences(spans_of(cs@.take(i as int), true)),
            text::views(names@) == first_occurrences(spans_of(cs@.take(i as int), false)),
        decreases cs@.len() - i,
    {
        let ghost t = cs@.take(i + 1);
        assert(t.drop_last() =~= cs@.take(i as int));
        assert(t.last() == cs@[i as int]);
        let span = cs[i].span.as_str();
        let is_bracket = match cs[i].kind {
            MentionKind::Bracket => true,
            MentionKind::AtName => false,
        };
        proof {
            let pb = spans_of(cs@.take(i as int), true);
            let pn = spans_of(cs@.take(i as int), false);
            if is_bracket {
                assert(spans_of(t, true) == pb.push(span@));
                assert(spans_of(t, false) == pn);
                assert(pb.push(span@).drop_last() =~= pb);
            } else {
                assert(spans_of(t, true) == pb);
                assert(spans_of(t, false) == pn.push(span@));
                assert(pn.push(span@).drop_last() =~= pn);
            }
        }
        if is_bracket {
            if !contains_view(&brackets, span) {
                let ghost before = brackets@;
                brackets.push(cs[i].span.clone());
                assert(text::views(brackets@) =~= text::views(before).push(span@));
            }
        } else {
            if !contains_view(&names, span) {
                let ghost before = names@;
                names.push(cs[i].span.clone());
                assert(text::views(names@) =~= text::views(before).push(span@));
            }
        }
        i = i + 1;
    }
    assert(cs@.take(cs@.len() as int) =~= cs@);
    (brackets, names)
}

} // verus!

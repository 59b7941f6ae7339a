//! The decisions of `issue move` that concern resolutions: matching the
//! `--resolution` flag against the instance's resolutions, and the
//! interactive prompt offered when a transition needs one.
use vstd::prelude::*;

use crate::error::JrError;
use crate::partial_match;
use crate::partial_match::MatchResult;
use crate::text;
use crate::types::jira::Resolution;

verus! {

/// The names of the resolutions, in order.
pub open spec fn names_of(rs: Seq<Resolution>) -> Seq<Seq<char>> {
    rs.map_values(|r: Resolution| r.name@)
}

/// How a duplicate resolution is listed: its name, and its id when it has one.
pub open spec fn duplicate_label(r: Resolution) -> Seq<char> {
    match r.id {
        Some(id) => r.name@ + " (id="@ + id@ + ")"@,
        None => r.name@,
    }
}

/// The labels of the resolutions whose name equals `q` up to ASCII case, in order.
pub open spec fn duplicate_labels(rs: Seq<Resolution>, q: Seq<char>) -> Seq<Seq<char>>
    decreases rs.len(),
{
    if rs.len() == 0 {
        Seq::empty()
    } else if text::eq_ignore_ascii_case(rs.last().name@, q) {
        duplicate_labels(rs.drop_last(), q).push(duplicate_label(rs.last()))
    } else {
        duplicate_labels(rs.drop_last(), q)
    }
}

pub open spec fn multiple_text(q: Seq<char>, labels: Seq<Seq<char>>) -> Seq<char> {
    "Multiple resolutions named \""@ + q + "\" exist: "@ + text::join_seq(labels, ", "@)
}

pub open spec fn ambiguous_text(q: Seq<char>, matches: Seq<Seq<char>>) -> Seq<char> {
    "Ambiguous resolution \""@ + q + "\". Matches: "@ + text::join_seq(matches, ", "@)
}

pub open spec fn no_match_text(q: Seq<char>, all: Seq<Seq<char>>) -> Seq<char> {
    "No resolution matching \""@ + q + "\". Available: "@ + text::join_seq(all, ", "@)
}

/// Why resolving `q` against `rs` fails, if it does. Only a unique
/// case-insensitive exact match succeeds: several exact matches list the
/// colliding entries with their ids, a non-exact hit (even a unique one)
/// is ambiguous, and no hit at all lists every resolution.
pub open spec fn resolution_failure(rs: Seq<Resolution>, q: Seq<char>) -> Option<Seq<char>> {
    let names = names_of(rs);
    let exact = partial_match::exact_matches(q, names);
    let subs = partial_match::substring_matches(q, names);
    if exact.len() == 1 {
        None
    } else if exact.len() > 1 {
        Some(multiple_text(q, duplicate_labels(rs, q)))
    } else if subs.len() == 0 {
        Some(no_match_text(q, names))
    } else {
        Some(ambiguous_text(q, subs))
    }
}

/// `k` is the first resolution named exactly `n`.
pub open spec fn first_named(rs: Seq<Resolution>, n: Seq<char>, k: int) -> bool {
    &&& 0 <= k < rs.len()
    &&& rs[k].name@ == n
    &&& forall|j: int| 0 <= j < k ==> (#[trigger] rs[j]).name@ != n
}

impl Resolution {
    /// A copy of this resolution.
    pub fn duplicate(&self) -> (r: Self)
        ensures
            r == *self,
    {
        Resolution {
            id: crate::config::copy_opt(&self.id),
            name: self.name.clone(),
            description: crate::config::copy_opt(&self.description),
        }
    }
}

fn duplicate_label_of(r: &Resolution) -> (s: String)
    ensures
        s@ == duplicate_label(*r),
{
    match &r.id {
        Some(id) => {
            let mut s = r.name.clone();
            s.append(" (id=");
            s.append(id.as_str());
            s.append(")");
            s
        },
        None => r.name.clone(),
    }
}

/// `prefix + q + middle + parts.join(", ")`.
fn quoted_list_message(prefix: &str, q: &str, middle: &str, parts: &Vec<String>) -> (s: String)
    ensures
        s@ == prefix@ + q@ + middle@ + text::join_seq(text::views(parts@), ", "@),
{
    let mut s = String::from_str(prefix);
    s.append(q);
    s.append(middle);
    let list = text::join(parts, ", ");
    s.append(list.as_str());
    s
}

/// Resolve a user-supplied resolution name against a list of resolutions.
///
/// Only a case-insensitive exact match resolves. Anything else — a prefix
/// or substring hit (even a unique one), several exact duplicates, or no
/// match — is a user error (exit 64) that lists the candidates.
pub fn resolve_resolution_by_name(resolutions: &[Resolution], query: &str) -> (r: Result<
    Resolution,
    JrError,
>)
    ensures
        match resolution_failure(resolutions@, query@) {
            None => r matches Ok(res) && exists|k: int|
                first_named(
                    resolutions@,
                    partial_match::exact_matches(query@, names_of(resolutions@))[0],
                    k,
                ) && res == resolutions@[k],
            Some(m) => r matches Err(JrError::UserError(msg)) && msg@ == m,
        },
{
    let ghost rs = resolutions@;
    let ghost all = names_of(rs);
    let mut names: Vec<String> = Vec::new();
    let mut i: usize = 0;
    while i < resolutions.len()
        invariant
            i <= resolutions.len(),
            rs == resolutions@,
            names@.len() == i,
            forall|j: int| 0 <= j < i ==> (#[trigger] names@[j])@ == rs[j].name@,
        decreases resolutions.len() - i,
    {
        names.push(resolutions[i].name.clone());
        i = i + 1;
    }
    assert(text::views(names@) =~= all);
    let ghost exact = partial_match::exact_matches(query@, all);
    let ghost subs = partial_match::substring_matches(query@, all);
    let ghost pe = partial_match::same_lowercase(query@);
    proof {
        partial_match::law_reported_names_are_candidates(query@, all);
        partial_match::lemma_keep_members(all, pe);
    }
    let m = partial_match::partial_match_exact_only(query, names.as_slice());
    match m {
        MatchResult::Exact(name) => {
            let ghost n = name@;
            assert(exact.len() == 1 && exact[0] == n);
            let ghost w = choose|w: int| 0 <= w < all.len() && all[w] == n;
            let mut k: usize = 0;
            while k < resolutions.len()
                invariant
                    k <= resolutions.len(),
                    rs == resolutions@,
                    0 <= w < rs.len(),
                    rs[w].name@ == n,
                    name@ == n,
                    exact == partial_match::exact_matches(query@, names_of(rs)),
                    exact.len() == 1,
                    exact[0] == n,
                    forall|j: int| 0 <= j < k ==> (#[trigger] rs[j]).name@ != n,
                decreases resolutions.len() - k,
            {
                if resolutions[k].name == name {
                    assert(first_named(rs, n, k as int));
                    return Ok(resolutions[k].duplicate());
                }
                k = k + 1;
            }
            assert(rs[w].name@ != n);
            Err(JrError::Internal(name))
        },
        MatchResult::ExactMultiple(_) => {
            let mut labels: Vec<String> = Vec::new();
            let mut j: usize = 0;
            while j < resolutions.len()
                invariant
                    j <= resolutions.len(),
                    rs == resolutions@,
                    text::views(labels@) == duplicate_labels(rs.take(j as int), query@),
                decreases resolutions.len() - j,
            {
                let ghost before = labels@;
                assert(rs.take(j + 1).drop_last() =~= rs.take(j as int));
                if text::str_eq_ignore_ascii_case(resolutions[j].name.as_str(), query) {
                    labels.push(duplicate_label_of(&resolutions[j]));
                    assert(text::views(labels@) =~= text::views(before).push(
                        duplicate_label(rs[j as int]),
                    ));
                }
                j = j + 1;
            }
            assert(rs.take(resolutions.len() as int) =~= rs);
            let msg = quoted_list_message(
                "Multiple resolutions named \"",
                query,
                "\" exist: ",
                &labels,
            );
            Err(JrError::UserError(msg))
        },
        MatchResult::Ambiguous(matches) => {
            let msg = quoted_list_message("Ambiguous resolution \"", query, "\". Matches: ", &matches);
            Err(JrError::UserError(msg))
        },
        MatchResult::NoMatch(all_names) => {
            let msg = quoted_list_message(
                "No resolution matching \"",
                query,
                "\". Available: ",
                &all_names,
            );
            Err(JrError::UserError(msg))
        },
    }
}

// ───────────────────────────── the interactive prompt ─────────────────────────────

/// Sentinel label for the "no resolution" option in optional interactive prompts.
pub const NONE_LABEL: &'static str = "(none — no resolution)";

/// Resolve a selection index of the prompt to `Option<String>`: `None`
/// when the index is out of range or the selected item is the sentinel
/// ("proceed without a resolution"), the selected name otherwise.
pub fn resolve_interactive_choice(options: &[String], none_sentinel: &str, selection: usize) -> (r:
    Option<String>)
    ensures
        selection < options@.len() && options@[selection as int]@ != none_sentinel@ ==> r == Some(
            options@[selection as int],
        ),
        !(selection < options@.len() && options@[selection as int]@ != none_sentinel@) ==> r
            is None,
{
    if selection < options.len() {
        if text::str_eq(options[selection].as_str(), none_sentinel) {
            None
        } else {
            Some(options[selection].clone())
        }
    } else {
        None
    }
}

/// The prompt list: `base` as given, followed by the sentinel when the
/// user may opt out of setting a resolution.
pub fn build_resolution_prompt(base: &[String], allow_none: bool) -> (r: Vec<String>)
    ensures
        text::views(r@) == if allow_none {
            text::views(base@).push(NONE_LABEL@)
        } else {
            text::views(base@)
        },
{
    let mut v = text::clone_strings(base);
    if allow_none {
        v.push(text::owned(NONE_LABEL));
        assert(text::views(v@) =~= text::views(base@).push(NONE_LABEL@));
    }
    v
}

/// Refuse an interactive prompt when `--no-input` was given or stdin is
/// not a terminal.
pub fn refuse_noninteractive(no_input: bool, stdin_is_tty: bool) -> (r: bool)
    ensures
        r == (no_input || !stdin_is_tty),
{
    no_input || !stdin_is_tty
}

/// The names offered in the prompt: those the transition allows when it
/// lists any, the instance's resolutions otherwise.
pub fn select_prompt_base_names<'a>(
    allowed_from_transition: &'a [String],
    instance_list: &'a [String],
) -> (r: &'a [String])
    ensures
        r@ == if allowed_from_transition@.len() > 0 {
            allowed_from_transition@
        } else {
            instance_list@
        },
{
    if allowed_from_transition.len() > 0 {
        allowed_from_transition
    } else {
        instance_list
    }
}

/// The default selection of the optional prompt: its last entry (the
/// sentinel), or 0 for an empty list.
pub fn optional_prompt_default_index(len: usize) -> (r: usize)
    ensures
        r == if len == 0 {
            0
        } else {
            len - 1
        },
{
    if len == 0 {
        0
    } else {
        len - 1
    }
}

} // verus!

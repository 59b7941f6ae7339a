//! Case-insensitive matching of what a user typed against a list of names
//! (statuses, queues, resolutions, users, components).
use vstd::prelude::*;

use crate::text;

verus! {

/// Result of attempting a partial match against a list of candidates.
#[derive(Debug)]
pub enum MatchResult {
    /// Exactly one match found
    Exact(String),
    /// Multiple candidates share the same exact (case-insensitive) name
    ExactMultiple(Vec<String>),
    /// Several substring matches and no exact one — caller should disambiguate
    Ambiguous(Vec<String>),
    /// No matches
    NoMatch(Vec<String>),
}

/// A `MatchResult` seen as character sequences.
pub enum MatchView {
    Exact(Seq<char>),
    ExactMultiple(Seq<Seq<char>>),
    Ambiguous(Seq<Seq<char>>),
    NoMatch(Seq<Seq<char>>),
}

impl View for MatchResult {
    type V = MatchView;

    open spec fn view(&self) -> MatchView {
        match self {
            MatchResult::Exact(s) => MatchView::Exact(s@),
            MatchResult::ExactMultiple(v) => MatchView::ExactMultiple(text::views(v@)),
            MatchResult::Ambiguous(v) => MatchView::Ambiguous(text::views(v@)),
            MatchResult::NoMatch(v) => MatchView::NoMatch(text::views(v@)),
        }
    }
}

/// The elements of `s` that satisfy `p`, in order.
pub open spec fn keep(s: Seq<Seq<char>>, p: spec_fn(Seq<char>) -> bool) -> Seq<Seq<char>>
    decreases s.len(),
{
    if s.len() == 0 {
        Seq::empty()
    } else if p(s.last()) {
        keep(s.drop_last(), p).push(s.last())
    } else {
        keep(s.drop_last(), p)
    }
}

/// A candidate equals the input up to lower-casing.
pub open spec fn same_lowercase(input: Seq<char>) -> spec_fn(Seq<char>) -> bool {
    |c: Seq<char>| text::lowercase_of(c) == text::lowercase_of(input)
}

/// A candidate contains the input, both lower-cased.
pub open spec fn contains_lowercase(input: Seq<char>) -> spec_fn(Seq<char>) -> bool {
    |c: Seq<char>| text::contains_seq(text::lowercase_of(c), text::lowercase_of(input))
}

/// The candidates whose lower-casing equals the lower-cased input.
pub open spec fn exact_matches(input: Seq<char>, cands: Seq<Seq<char>>) -> Seq<Seq<char>> {
    keep(cands, same_lowercase(input))
}

/// The candidates whose lower-casing contains the lower-cased input.
pub open spec fn substring_matches(input: Seq<char>, cands: Seq<Seq<char>>) -> Seq<Seq<char>> {
    keep(cands, contains_lowercase(input))
}

/// The outcome of matching `input` against `cands`: a unique
/// case-insensitive exact match wins; several exact matches are reported
/// together; otherwise a lone case-insensitive substring match wins,
/// several are reported for the caller to disambiguate, and when there are
/// none all candidates are.
pub open spec fn match_outcome(input: Seq<char>, cands: Seq<Seq<char>>) -> MatchView {
    let exact = exact_matches(input, cands);
    let subs = substring_matches(input, cands);
    if exact.len() == 1 {
        MatchView::Exact(exact[0])
    } else if exact.len() > 1 {
        MatchView::ExactMultiple(exact)
    } else if subs.len() == 0 {
        MatchView::NoMatch(cands)
    } else if subs.len() == 1 {
        MatchView::Exact(subs[0])
    } else {
        MatchView::Ambiguous(subs)
    }
}

/// Case-insensitive substring match against candidates.
pub fn partial_match(input: &str, candidates: &[String]) -> (r: MatchResult)
    ensures
        r@ == match_outcome(input@, text::views(candidates@)),
{
    let lower_input = text::lowercase(input);
    let li = text::chars_of(lower_input.as_str());
    let ghost cands = text::views(candidates@);
    let ghost pe = same_lowercase(input@);
    let ghost ps = contains_lowercase(input@);
    let mut exact: Vec<String> = Vec::new();
    let mut subs: Vec<String> = Vec::new();
    let mut i: usize = 0;
    while i < candidates.len()
        invariant
            i <= candidates.len(),
            cands == text::views(candidates@),
            pe == same_lowercase(input@),
            ps == contains_lowercase(input@),
            li@ == text::lowercase_of(input@),
            text::views(exact@) == keep(cands.take(i as int), pe),
            text::views(subs@) == keep(cands.take(i as int), ps),
        decreases candidates.len() - i,
    {
        let lc = text::lowercase(candidates[i].as_str());
        let lv = text::chars_of(lc.as_str());
        let ghost c = candidates@[i as int]@;
        let ghost before = cands.take(i as int);
        assert(cands.take(i + 1).drop_last() =~= before);
        assert(cands.take(i + 1).last() == c);
        assert(pe(c) == (lv@ == li@));
        assert(ps(c) == text::contains_seq(lv@, li@));
        assert(keep(cands.take(i + 1), pe) == if pe(c) {
            keep(before, pe).push(c)
        } else {
            keep(before, pe)
        });
        assert(keep(cands.take(i + 1), ps) == if ps(c) {
            keep(before, ps).push(c)
        } else {
            keep(before, ps)
        });
        let ghost old_exact = exact@;
        let ghost old_subs = subs@;
        if text::chars_eq(&lv, &li) {
            exact.push(candidates[i].clone());
            assert(text::views(exact@) =~= text::views(old_exact).push(c));
        }
        if text::contains_chars(&lv, &li) {
            subs.push(candidates[i].clone());
            assert(text::views(subs@) =~= text::views(old_subs).push(c));
        }
        i = i + 1;
    }
    assert(cands.take(candidates.len() as int) =~= cands);
    if exact.len() == 1 {
        return MatchResult::Exact(exact[0].clone());
    }
    if exact.len() > 1 {
        return MatchResult::ExactMultiple(exact);
    }
    if subs.len() == 1 {
        let ghost sv = text::views(subs@);
        let only = subs.remove(0);
        assert(only@ == sv[0]);
        return MatchResult::Exact(only);
    }
    if subs.len() == 0 {
        return MatchResult::NoMatch(text::clone_strings(candidates));
    }
    MatchResult::Ambiguous(subs)
}

/// The outcome when only an exact match may resolve: as `match_outcome`,
/// except that a lone substring hit is reported as ambiguous too.
pub open spec fn exact_only_outcome(input: Seq<char>, cands: Seq<Seq<char>>) -> MatchView {
    let exact = exact_matches(input, cands);
    let subs = substring_matches(input, cands);
    if exact.len() == 1 {
        MatchView::Exact(exact[0])
    } else if exact.len() > 1 {
        MatchView::ExactMultiple(exact)
    } else if subs.len() == 0 {
        MatchView::NoMatch(cands)
    } else {
        MatchView::Ambiguous(subs)
    }
}

/// Match as `partial_match` does, but let only a case-insensitive exact
/// match resolve: a lone substring hit comes back as `Ambiguous`, for the
/// callers that want the user to be explicit.
pub fn partial_match_exact_only(input: &str, candidates: &[String]) -> (r: MatchResult)
    ensures
        r@ == exact_only_outcome(input@, text::views(candidates@)),
{
    let ghost cands = text::views(candidates@);
    let ghost exact = exact_matches(input@, cands);
    let ghost subs = substring_matches(input@, cands);
    proof {
        lemma_keep_members(cands, same_lowercase(input@));
        lemma_keep_members(cands, contains_lowercase(input@));
    }
    match partial_match(input, candidates) {
        MatchResult::Exact(m) => {
            let lm = text::lowercase(m.as_str());
            let li = text::lowercase(input);
            if text::str_eq(lm.as_str(), li.as_str()) {
                proof {
                    if exact.len() != 1 {
                        // A lone substring hit that equals the input up to
                        // case would have been an exact match.
                        assert(subs.len() == 1 && subs[0] == m@);
                        let j = choose|j: int| 0 <= j < cands.len() && cands[j] == m@;
                        lemma_keep_nonempty(cands, same_lowercase(input@), j);
                    }
                }
                MatchResult::Exact(m)
            } else {
                proof {
                    if exact.len() == 1 {
                        assert(same_lowercase(input@)(exact[0]));
                    }
                }
                let ghost mv = m@;
                let v = vec![m];
                assert(text::views(v@) =~= subs);
                MatchResult::Ambiguous(v)
            }
        },
        other => other,
    }
}

// ───────────────────────────── properties of `keep` ─────────────────────────────

pub proof fn lemma_keep_members(s: Seq<Seq<char>>, p: spec_fn(Seq<char>) -> bool)
    ensures
        forall|i: int| 0 <= i < keep(s, p).len() ==> p(#[trigger] keep(s, p)[i]) && s.contains(
            keep(s, p)[i],
        ),
    decreases s.len(),
{
    if s.len() > 0 {
        lemma_keep_members(s.drop_last(), p);
        let k = keep(s.drop_last(), p);
        assert forall|i: int| 0 <= i < keep(s, p).len() implies p(#[trigger] keep(s, p)[i])
            && s.contains(keep(s, p)[i]) by {
            if i < k.len() {
                let w = choose|w: int| 0 <= w < s.drop_last().len() && s.drop_last()[w] == k[i];
                assert(s[w] == k[i]);
            } else {
                assert(s[s.len() - 1] == keep(s, p)[i]);
            }
        }
    }
}

pub proof fn lemma_keep_nonempty(s: Seq<Seq<char>>, p: spec_fn(Seq<char>) -> bool, j: int)
    requires
        0 <= j < s.len(),
        p(s[j]),
    ensures
        keep(s, p).len() >= 1,
    decreases s.len(),
{
    if j < s.len() - 1 {
        lemma_keep_nonempty(s.drop_last(), p, j);
    }
}

proof fn lemma_keep_two(s: Seq<Seq<char>>, p: spec_fn(Seq<char>) -> bool, j: int, k: int)
    requires
        0 <= j < k < s.len(),
        p(s[j]),
        p(s[k]),
    ensures
        keep(s, p).len() >= 2,
    decreases s.len(),
{
    if k == s.len() - 1 {
        lemma_keep_nonempty(s.drop_last(), p, j);
    } else {
        lemma_keep_two(s.drop_last(), p, j, k);
    }
}

pub proof fn lemma_keep_empty(s: Seq<Seq<char>>, p: spec_fn(Seq<char>) -> bool)
    requires
        forall|i: int| 0 <= i < s.len() ==> !p(#[trigger] s[i]),
    ensures
        keep(s, p).len() == 0,
    decreases s.len(),
{
    if s.len() > 0 {
        lemma_keep_empty(s.drop_last(), p);
    }
}

proof fn lemma_keep_single(s: Seq<Seq<char>>, p: spec_fn(Seq<char>) -> bool, k: int)
    requires
        0 <= k < s.len(),
        p(s[k]),
        forall|j: int| 0 <= j < s.len() && j != k ==> !p(#[trigger] s[j]),
    ensures
        keep(s, p) == seq![s[k]],
    decreases s.len(),
{
    if k == s.len() - 1 {
        lemma_keep_empty(s.drop_last(), p);
        assert(keep(s.drop_last(), p).push(s[k]) =~= seq![s[k]]);
    } else {
        lemma_keep_single(s.drop_last(), p, k);
    }
}

// ───────────────────────────── laws ─────────────────────────────

/// Law: when the input is one of the candidates and no other candidate
/// equals it up to case, the match is exactly that candidate.
pub proof fn law_exact_candidate_is_found(input: Seq<char>, cands: Seq<Seq<char>>, k: int)
    requires
        0 <= k < cands.len(),
        cands[k] == input,
        forall|j: int|
            0 <= j < cands.len() && j != k ==> text::lowercase_of(#[trigger] cands[j])
                != text::lowercase_of(input),
    ensures
        match_outcome(input, cands) == MatchView::Exact(input),
{
    lemma_keep_single(cands, same_lowercase(input), k);
}

/// Law: with no candidates there is no match, and the (empty) candidate
/// list is what is reported.
pub proof fn law_no_candidates_no_match(input: Seq<char>)
    ensures
        match_outcome(input, Seq::empty()) == MatchView::NoMatch(Seq::empty()),
{
}

/// Law: when two or more candidates equal the input up to case, they are
/// all reported together, and every reported name equals the input up to
/// case.
pub proof fn law_case_duplicates_reported_together(
    input: Seq<char>,
    cands: Seq<Seq<char>>,
    j: int,
    k: int,
)
    requires
        0 <= j < k < cands.len(),
        text::lowercase_of(cands[j]) == text::lowercase_of(input),
        text::lowercase_of(cands[k]) == text::lowercase_of(input),
    ensures
        match_outcome(input, cands) matches MatchView::ExactMultiple(names) && names.len() >= 2
            && forall|i: int|
            0 <= i < names.len() ==> text::lowercase_of(#[trigger] names[i]) == text::lowercase_of(
                input,
            ),
{
    lemma_keep_two(cands, same_lowercase(input), j, k);
    lemma_keep_members(cands, same_lowercase(input));
}

/// Law: every name a match reports is one of the candidates, and a failed
/// match reports the candidate list unchanged.
pub proof fn law_reported_names_are_candidates(input: Seq<char>, cands: Seq<Seq<char>>)
    ensures
        match match_outcome(input, cands) {
            MatchView::Exact(n) => cands.contains(n),
            MatchView::ExactMultiple(ns) => forall|i: int|
                0 <= i < ns.len() ==> cands.contains(#[trigger] ns[i]),
            MatchView::Ambiguous(ns) => forall|i: int|
                0 <= i < ns.len() ==> cands.contains(#[trigger] ns[i]),
            MatchView::NoMatch(ns) => ns == cands,
        },
{
    lemma_keep_members(cands, same_lowercase(input));
    lemma_keep_members(cands, contains_lowercase(input));
}

} // verus!

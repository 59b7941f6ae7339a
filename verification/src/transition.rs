//! The decisions of `issue move`: which issues and which target its
//! arguments name, whether the move is a no-op, which transition the target
//! designates, and what is done about a resolution.
use vstd::prelude::*;

use crate::error::JrError;
use crate::partial_match;
use crate::partial_match::MatchResult;
use crate::text;
use crate::types::jira::Transition;
use crate::workflow;

verus! {

// ───────────────────────────── arguments ─────────────────────────────

/// The issues to move and the target: with `--to`, every positional is a
/// key; otherwise, with two or more positionals, the last is the target.
/// A single key without `--to` has no target (`None`: ask for one).
pub open spec fn move_args(keys: Seq<String>, to: Option<String>) -> Option<(Seq<String>, String)> {
    match to {
        Some(t) => Some((keys, t)),
        None => if keys.len() >= 2 {
            Some((keys.drop_last(), keys.last()))
        } else {
            None
        },
    }
}

/// Split `issue move`'s positionals and `--to` into the keys and the target.
pub fn split_move_args(keys: Vec<String>, to: Option<String>) -> (r: Option<(Vec<String>, String)>)
    ensures
        match move_args(keys@, to) {
            Some((ks, t)) => r matches Some(p) && p.0@ == ks && p.1 == t,
            None => r is None,
        },
{
    match to {
        Some(t) => Some((keys, t)),
        None => {
            if keys.len() >= 2 {
                let mut ks = keys;
                let t = ks.pop().unwrap();
                Some((ks, t))
            } else {
                None
            }
        },
    }
}

/// More keys than one bulk request takes are refused.
pub fn check_move_key_count(count: usize, max: usize) -> (r: Result<(), JrError>)
    ensures
        count <= max ==> r is Ok,
        count > max ==> (r matches Err(JrError::UserError(m)) && m@ == "Too many issue keys: "@
            + text::decimal(count as nat) + " provided, maximum is "@ + text::decimal(max as nat)
            + ". Split into batches of "@ + text::decimal(max as nat)
            + " or fewer and run multiple times."@),
{
    if count <= max {
        return Ok(());
    }
    let mut m = String::from_str("Too many issue keys: ");
    let c = text::u64_to_string(count as u64);
    let x = text::u64_to_string(max as u64);
    m.append(c.as_str());
    m.append(" provided, maximum is ");
    m.append(x.as_str());
    m.append(". Split into batches of ");
    m.append(x.as_str());
    m.append(" or fewer and run multiple times.");
    Err(JrError::UserError(m))
}

// ───────────────────────────── numbers ─────────────────────────────

/// `str::parse::<usize>`: an optional `+`, then one or more ASCII digits
/// whose value fits in a `usize`.
pub open spec fn parsed_usize(s: Seq<char>) -> Option<nat> {
    text::parsed_decimal(s, usize::MAX as nat)
}

/// Parse a decimal `usize` the way `str::parse::<usize>` does.
pub fn parse_usize(s: &str) -> (r: Option<usize>)
    ensures
        match parsed_usize(s@) {
            Some(n) => r == Some(n as usize),
            None => r is None,
        },
{
    match text::parse_decimal(s, usize::MAX as u64) {
        Some(n) => Some(n as usize),
        None => None,
    }
}

// ───────────────────────────── choosing the transition ─────────────────────────────

/// The name of the status a transition leads to, if known.
pub open spec fn to_name(t: Transition) -> Option<Seq<char>> {
    match t.to {
        Some(s) => Some(s.name@),
        None => None,
    }
}

/// The lower-cased names of the candidates.
pub open spec fn lowered_names(cs: Seq<(Seq<char>, int)>) -> Seq<Seq<char>> {
    cs.map_values(|c: (Seq<char>, int)| text::lowercase_of(c.0))
}

/// `name` of transition `idx` joins the candidates unless a candidate of
/// the same lower-cased name is already there.
pub open spec fn add_candidate(cs: Seq<(Seq<char>, int)>, name: Seq<char>, idx: int) -> Seq<
    (Seq<char>, int),
> {
    if lowered_names(cs).contains(text::lowercase_of(name)) {
        cs
    } else {
        cs.push((name, idx))
    }
}

/// The names a target is matched against, each with the transition it
/// designates: every transition's name, then the name of the status it
/// leads to, in order, keeping the first of names equal up to case.
pub open spec fn candidates(ts: Seq<Transition>) -> Seq<(Seq<char>, int)>
    decreases ts.len(),
{
    if ts.len() == 0 {
        Seq::empty()
    } else {
        let i = ts.len() - 1;
        let with_name = add_candidate(candidates(ts.drop_last()), ts.last().name@, i);
        match to_name(ts.last()) {
            Some(s) => add_candidate(with_name, s, i),
            None => with_name,
        }
    }
}

/// The candidate names.
pub open spec fn candidate_names(cs: Seq<(Seq<char>, int)>) -> Seq<Seq<char>> {
    cs.map_values(|c: (Seq<char>, int)| c.0)
}

/// The first candidate named exactly `n`, if any.
pub open spec fn first_candidate(cs: Seq<(Seq<char>, int)>, n: Seq<char>) -> Option<int>
    decreases cs.len(),
{
    if cs.len() == 0 {
        None
    } else {
        match first_candidate(cs.drop_last(), n) {
            Some(k) => Some(k),
            None => if cs.last().0 == n {
                Some(cs.len() - 1)
            } else {
                None
            },
        }
    }
}

/// What a target designates among the transitions.
pub enum TransitionPick {
    /// The transition at this index.
    Index(usize),
    /// Several candidate names contain the target: these.
    Ambiguous(Vec<String>),
    /// A number beyond the transitions (when numbers are not also names).
    OutOfRange(usize),
    /// Nothing matches.
    NotFound,
}

pub enum PickView {
    Index(int),
    Ambiguous(Seq<Seq<char>>),
    OutOfRange(int),
    NotFound,
}

impl View for TransitionPick {
    type V = PickView;

    open spec fn view(&self) -> PickView {
        match self {
            TransitionPick::Index(i) => PickView::Index(*i as int),
            TransitionPick::Ambiguous(v) => PickView::Ambiguous(text::views(v@)),
            TransitionPick::OutOfRange(n) => PickView::OutOfRange(*n as int),
            TransitionPick::NotFound => PickView::NotFound,
        }
    }
}

/// What `target` designates: a number from 1 to the count picks that
/// transition; otherwise (or, with `numbers_only_in_range`, for an
/// out-of-range number: refused) the target is matched against the
/// candidate names, and an exact match picks the candidate's transition.
pub open spec fn pick(target: Seq<char>, ts: Seq<Transition>, strict_numbers: bool) -> PickView {
    let by_number = parsed_usize(target);
    if by_number matches Some(n) && 1 <= n <= ts.len() {
        PickView::Index(by_number->0 - 1)
    } else if strict_numbers && by_number is Some {
        PickView::OutOfRange(by_number->0 as int)
    } else {
        let cs = candidates(ts);
        match partial_match::match_outcome(target, candidate_names(cs)) {
            partial_match::MatchView::Exact(n) => match first_candidate(cs, n) {
                Some(k) => PickView::Index(cs[k].1),
                None => PickView::NotFound,
            },
            partial_match::MatchView::ExactMultiple(ns) => match first_candidate(cs, ns[0]) {
                Some(k) => PickView::Index(cs[k].1),
                None => PickView::NotFound,
            },
            partial_match::MatchView::Ambiguous(ms) => PickView::Ambiguous(ms),
            partial_match::MatchView::NoMatch(_) => PickView::NotFound,
        }
    }
}

/// Law: the decimal number of a listed transition always designates it —
/// `n` (from 1 to the number of transitions) picks the `n`-th transition,
/// whether or not out-of-range numbers are refused.
pub proof fn law_number_picks_that_transition(n: nat, ts: Seq<Transition>, strict_numbers: bool)
    requires
        1 <= n <= ts.len(),
        ts.len() <= usize::MAX,
    ensures
        pick(text::decimal(n), ts, strict_numbers) == PickView::Index(n - 1),
{
    text::lemma_parse_decimal_of_decimal(n, usize::MAX as nat);
}

/// Law: with out-of-range numbers refused, a number beyond the transitions
/// is reported as such, and never picks a transition.
pub proof fn law_number_beyond_is_out_of_range(n: nat, ts: Seq<Transition>)
    requires
        ts.len() < n <= usize::MAX,
    ensures
        pick(text::decimal(n), ts, true) == PickView::OutOfRange(n as int),
{
    text::lemma_parse_decimal_of_decimal(n, usize::MAX as nat);
}

fn contains_lowered(v: &Vec<String>, x: &str) -> (b: bool)
    ensures
        b == text::views(v@).contains(x@),
{
    let mut i: usize = 0;
    while i < v.len()
        invariant
            i <= v@.len(),
            forall|j: int| 0 <= j < i ==> (#[trigger] v@[j])@ != x@,
        decreases v@.len() - i,
    {
        if text::str_eq(v[i].as_str(), x) {
            assert(text::views(v@)[i as int] == x@);
            return true;
        }
        i = i + 1;
    }
    assert forall|j: int| 0 <= j < text::views(v@).len() implies text::views(v@)[j] != x@ by {
        assert(text::views(v@)[j] == v@[j]@);
    }
    false
}

/// The candidate list, as values.
pub open spec fn candidate_views(v: Seq<(String, usize)>) -> Seq<(Seq<char>, int)> {
    v.map_values(|c: (String, usize)| (c.0@, c.1 as int))
}

fn push_candidate(
    cands: &mut Vec<(String, usize)>,
    lowered: &mut Vec<String>,
    name: &String,
    idx: usize,
)
    requires
        text::views(old(lowered)@) == lowered_names(candidate_views(old(cands)@)),
    ensures
        candidate_views(final(cands)@) == add_candidate(
            candidate_views(old(cands)@),
            name@,
            idx as int,
        ),
        text::views(final(lowered)@) == lowered_names(candidate_views(final(cands)@)),
{
    let l = text::lowercase(name.as_str());
    if !contains_lowered(lowered, l.as_str()) {
        let ghost bc = candidate_views(cands@);
        let ghost bl = text::views(lowered@);
        let ghost lv = l@;
        cands.push((name.clone(), idx));
        lowered.push(l);
        assert(candidate_views(cands@) =~= bc.push((name@, idx as int)));
        assert(text::views(lowered@) =~= bl.push(lv));
        assert(lowered_names(candidate_views(cands@)) =~= lowered_names(bc).push(lv));
    }
}

/// The candidate names with the transition each designates.
pub fn transition_candidates(transitions: &[Transition]) -> (r: Vec<(String, usize)>)
    ensures
        candidate_views(r@) == candidates(transitions@),
{
    let ghost ts = transitions@;
    let mut cands: Vec<(String, usize)> = Vec::new();
    let mut lowered: Vec<String> = Vec::new();
    let mut i: usize = 0;
    assert(candidate_views(cands@) =~= candidates(ts.take(0)));
    assert(text::views(lowered@) =~= lowered_names(candidate_views(cands@)));
    while i < transitions.len()
        invariant
            i <= ts.len(),
            ts == transitions@,
            candidate_views(cands@) == candidates(ts.take(i as int)),
            text::views(lowered@) == lowered_names(candidate_views(cands@)),
        decreases ts.len() - i,
    {
        assert(ts.take(i + 1).drop_last() =~= ts.take(i as int));
        assert(ts.take(i + 1).last() == ts[i as int]);
        let t = &transitions[i];
        push_candidate(&mut cands, &mut lowered, &t.name, i);
        match &t.to {
            Some(st) => {
                push_candidate(&mut cands, &mut lowered, &st.name, i);
            },
            None => {},
        }
        i = i + 1;
    }
    assert(ts.take(ts.len() as int) =~= ts);
    cands
}

fn find_candidate(cands: &Vec<(String, usize)>, n: &String) -> (r: Option<usize>)
    ensures
        match first_candidate(candidate_views(cands@), n@) {
            Some(k) => r matches Some(x) && x as int == candidate_views(cands@)[k].1,
            None => r is None,
        },
{
    let ghost cs = candidate_views(cands@);
    let mut i: usize = 0;
    while i < cands.len()
        invariant
            i <= cands@.len(),
            cs == candidate_views(cands@),
            first_candidate(cs.take(i as int), n@) is None,
        decreases cands@.len() - i,
    {
        assert(cs.take(i + 1).drop_last() =~= cs.take(i as int));
        assert(cs.take(i + 1).last() == (cands@[i as int].0@, cands@[i as int].1 as int));
        if cands[i].0 == *n {
            proof {
                lemma_first_candidate_extend(cs, n@, i as int + 1);
            }
            return Some(cands[i].1);
        }
        i = i + 1;
    }
    assert(cs.take(cands@.len() as int) =~= cs);
    None
}

proof fn lemma_first_candidate_extend(cs: Seq<(Seq<char>, int)>, n: Seq<char>, k: int)
    requires
        0 < k <= cs.len(),
        first_candidate(cs.take(k), n) == Some(k - 1),
    ensures
        first_candidate(cs, n) == Some(k - 1),
    decreases cs.len() - k,
{
    if k < cs.len() {
        assert(cs.drop_last().take(k) =~= cs.take(k));
        lemma_first_candidate_extend(cs.drop_last(), n, k);
    } else {
        assert(cs.take(k) =~= cs);
    }
}

/// Decide which transition `target` designates.
pub fn pick_transition(target: &str, transitions: &[Transition], strict_numbers: bool) -> (r:
    TransitionPick)
    ensures
        r@ == pick(target@, transitions@, strict_numbers),
{
    let by_number = parse_usize(target);
    if let Some(n) = by_number {
        if n >= 1 && n <= transitions.len() {
            return TransitionPick::Index(n - 1);
        }
        if strict_numbers {
            return TransitionPick::OutOfRange(n);
        }
    }
    let cands = transition_candidates(transitions);
    let ghost cs = candidate_views(cands@);
    let mut names: Vec<String> = Vec::new();
    let mut i: usize = 0;
    while i < cands.len()
        invariant
            i <= cands@.len(),
            cs == candidate_views(cands@),
            text::views(names@) == candidate_names(cs).take(i as int),
        decreases cands@.len() - i,
    {
        let ghost before = text::views(names@);
        names.push(cands[i].0.clone());
        assert(text::views(names@) =~= before.push(cands@[i as int].0@));
        assert(candidate_names(cs).take(i + 1) =~= candidate_names(cs).take(i as int).push(
            cands@[i as int].0@,
        ));
        i = i + 1;
    }
    assert(candidate_names(cs).take(cands@.len() as int) =~= candidate_names(cs));
    match partial_match::partial_match(target, names.as_slice()) {
        MatchResult::Exact(n) => match find_candidate(&cands, &n) {
            Some(idx) => TransitionPick::Index(idx),
            None => TransitionPick::NotFound,
        },
        MatchResult::ExactMultiple(ns) => {
            assert(text::views(ns@)[0] == ns@[0]@);
            match find_candidate(&cands, &ns[0]) {
                Some(idx) => TransitionPick::Index(idx),
                None => TransitionPick::NotFound,
            }
        },
        MatchResult::Ambiguous(ms) => TransitionPick::Ambiguous(ms),
        MatchResult::NoMatch(_) => TransitionPick::NotFound,
    }
}

/// How a transition is listed when nothing matches: its name, and the
/// status it leads to.
pub open spec fn transition_label(t: Transition) -> Seq<char> {
    match to_name(t) {
        Some(s) => t.name@ + " (\u{2192} "@ + s + ")"@,
        None => t.name@,
    }
}

/// The message when no transition matches `target`.
pub fn no_transition_message(target: &str, transitions: &[Transition]) -> (r: String)
    ensures
        r@ == "No transition matching \""@ + target@ + "\". Available: "@ + text::join_seq(
            transitions@.map_values(|t: Transition| transition_label(t)),
            ", "@,
        ),
{
    let ghost labels = transitions@.map_values(|t: Transition| transition_label(t));
    let mut parts: Vec<String> = Vec::new();
    let mut i: usize = 0;
    while i < transitions.len()
        invariant
            i <= transitions@.len(),
            labels == transitions@.map_values(|t: Transition| transition_label(t)),
            text::views(parts@) == labels.take(i as int),
        decreases transitions@.len() - i,
    {
        let t = &transitions[i];
        let label = match &t.to {
            Some(st) => {
                let mut l = t.name.clone();
                l.append(" (\u{2192} ");
                l.append(st.name.as_str());
                l.append(")");
                l
            },
            None => t.name.clone(),
        };
        let ghost before = text::views(parts@);
        let ghost lv = label@;
        parts.push(label);
        assert(text::views(parts@) =~= before.push(lv));
        assert(labels.take(i + 1) =~= labels.take(i as int).push(lv));
        i = i + 1;
    }
    assert(labels.take(transitions@.len() as int) =~= labels);
    let mut m = String::from_str("No transition matching \"");
    m.append(target);
    m.append("\". Available: ");
    let joined = text::join(&parts, ", ");
    m.append(joined.as_str());
    m
}

/// The message when a target matches several candidates and no prompt
/// may be shown.
pub open spec fn ambiguous_transition_text(target: Seq<char>, ms: Seq<Seq<char>>) -> Seq<char> {
    "Ambiguous transition \""@ + target + "\". Matches: "@ + text::join_seq(ms, ", "@)
}

/// The refusal of an ambiguous target when no prompt may be shown.
pub fn ambiguous_transition_error(target: &str, matches: &Vec<String>) -> (e: JrError)
    ensures
        e matches JrError::UserError(m) && m@ == ambiguous_transition_text(
            target@,
            text::views(matches@),
        ),
{
    let mut m = String::from_str("Ambiguous transition \"");
    m.append(target);
    m.append("\". Matches: ");
    m.append(text::join(matches, ", ").as_str());
    JrError::UserError(m)
}

/// The index of the transition chosen by answering `choice` to the
/// numbered list of the ambiguous matches: a number from 1 to their count
/// picks that match, which designates the transition of its candidate; an
/// answer that is no number, or out of range, is a usage error.
pub fn choose_among_matches(choice: &str, matches: &Vec<String>, transitions: &[Transition]) -> (r:
    Result<usize, JrError>)
    ensures
        match parsed_usize(choice@) {
            None => r matches Err(JrError::UserError(m)) && m@ == "Invalid selection"@,
            Some(n) => if n < 1 || n > matches@.len() {
                r matches Err(JrError::UserError(m)) && m@ == "Selection out of range"@
            } else {
                let name = matches@[n - 1]@;
                match first_candidate(candidates(transitions@), name) {
                    Some(k) => r matches Ok(x) && x as int == candidates(transitions@)[k].1,
                    None => r matches Err(JrError::Internal(m)) && m@
                        == "Internal error: selected candidate \""@ + name
                        + "\" not found. Please report this as a bug."@,
                }
            },
        },
{
    let n = match parse_usize(choice) {
        Some(n) => n,
        None => {
            return Err(JrError::UserError(String::from_str("Invalid selection")));
        },
    };
    if n < 1 || n > matches.len() {
        return Err(JrError::UserError(String::from_str("Selection out of range")));
    }
    let cands = transition_candidates(transitions);
    let name = &matches[n - 1];
    assert(text::views(matches@)[n - 1] == name@);
    match find_candidate(&cands, name) {
        Some(idx) => Ok(idx),
        None => {
            let mut m = String::from_str("Internal error: selected candidate \"");
            m.append(name.as_str());
            m.append("\" not found. Please report this as a bug.");
            Err(JrError::Internal(m))
        },
    }
}

// ───────────────────────────── no-op moves ─────────────────────────────

/// The issue is already where the target points: its status equals the
/// target up to case, or a transition named like the target leads to the
/// status it is in.
pub open spec fn already_in_target(current: Seq<char>, target: Seq<char>, ts: Seq<Transition>) -> bool {
    let cl = text::lowercase_of(current);
    let tl = text::lowercase_of(target);
    cl == tl || exists|i: int|
        0 <= i < ts.len() && text::lowercase_of(#[trigger] ts[i].name@) == tl && match to_name(
            ts[i],
        ) {
            Some(s) => text::lowercase_of(s) == cl,
            None => false,
        }
}

/// Whether the move is a no-op.
pub fn is_already_in_target(current: &str, target: &str, transitions: &[Transition]) -> (b: bool)
    ensures
        b == already_in_target(current@, target@, transitions@),
{
    let cl = text::lowercase(current);
    let tl = text::lowercase(target);
    if text::str_eq(cl.as_str(), tl.as_str()) {
        return true;
    }
    let mut i: usize = 0;
    while i < transitions.len()
        invariant
            i <= transitions@.len(),
            cl@ == text::lowercase_of(current@),
            tl@ == text::lowercase_of(target@),
            forall|j: int|
                0 <= j < i ==> !(text::lowercase_of(#[trigger] transitions@[j].name@) == tl@
                    && match to_name(transitions@[j]) {
                    Some(s) => text::lowercase_of(s) == cl@,
                    None => false,
                }),
        decreases transitions@.len() - i,
    {
        let t = &transitions[i];
        let nl = text::lowercase(t.name.as_str());
        if text::str_eq(nl.as_str(), tl.as_str()) {
            match &t.to {
                Some(st) => {
                    let sl = text::lowercase(st.name.as_str());
                    if text::str_eq(sl.as_str(), cl.as_str()) {
                        return true;
                    }
                },
                None => {},
            }
        }
        i = i + 1;
    }
    false
}

// ───────────────────────────── the resolution gate ─────────────────────────────

/// What the resolution gate reads of the chosen transition.
pub struct ResolutionFacts {
    /// The target status is in the `done` category.
    pub is_done_category: bool,
    /// The transition's screen has a resolution field.
    pub offers_resolution: bool,
    /// The transition is conditional.
    pub is_conditional: bool,
    /// The resolution field is marked required.
    pub resolution_required: bool,
    /// The resolution names the transition allows (empty when not listed).
    pub allowed_names: Vec<String>,
    /// The target status's name (or the transition's, when unknown).
    pub to_label: String,
}

/// What is done about a resolution.
pub enum ResolutionStep {
    /// Move now, with this resolution name or with none.
    Send(Option<String>),
    /// Resolve `--resolution` against the instance's resolutions, then move.
    ResolveByName(String),
    /// Ask the user; a required prompt offers no opt-out.
    Prompt { required: bool },
    /// Refuse with this user error.
    Refuse(String),
}

pub enum StepView {
    Send(Option<Seq<char>>),
    ResolveByName(Seq<char>),
    Prompt { required: bool },
    Refuse(Seq<char>),
}

impl View for ResolutionStep {
    type V = StepView;

    open spec fn view(&self) -> StepView {
        match self {
            ResolutionStep::Send(o) => StepView::Send(
                match o {
                    Some(s) => Some(s@),
                    None => None,
                },
            ),
            ResolutionStep::ResolveByName(q) => StepView::ResolveByName(q@),
            ResolutionStep::Prompt { required } => StepView::Prompt { required: *required },
            ResolutionStep::Refuse(m) => StepView::Refuse(m@),
        }
    }
}

/// The first allowed name equal to `q` up to ASCII case, if any.
pub open spec fn first_allowed(names: Seq<Seq<char>>, q: Seq<char>) -> Option<Seq<char>>
    decreases names.len(),
{
    if names.len() == 0 {
        None
    } else if text::eq_ignore_ascii_case(names[0], q) {
        Some(names[0])
    } else {
        first_allowed(names.drop_first(), q)
    }
}

pub open spec fn not_allowed_text(q: Seq<char>, to: Seq<char>, allowed: Seq<Seq<char>>) -> Seq<char> {
    "Resolution '"@ + q + "' is not allowed on the '"@ + to + "' transition. Allowed: "@
        + text::join_seq(allowed, ", "@)
        + ".\n\nRun `jr issue resolutions` to see all instance resolutions."@
}

pub open spec fn required_no_opt_out_text(key: Seq<char>, to: Seq<char>) -> Seq<char> {
    "The transition to \""@ + to
        + "\" requires a resolution and --no-resolution cannot be used here.\n\nTry:\n    jr issue move "@
        + key + " "@ + to
        + " --resolution <name>\n\nRun `jr issue resolutions` to see available values."@
}

pub open spec fn required_text(key: Seq<char>, to: Seq<char>) -> Seq<char> {
    "The transition to \""@ + to + "\" requires a resolution.\n\nTry:\n    jr issue move "@ + key
        + " "@ + to + " --resolution <name>\n\nRun `jr issue resolutions` to see available values."@
}

pub open spec fn must_choose_text(to: Seq<char>) -> Seq<char> {
    "The transition to \""@ + to
        + "\" offers a resolution field. You must explicitly choose:\n\n--resolution <name>   set a resolution\n--no-resolution       opt out (intentional null-resolution close)\n\nRun `jr issue resolutions` to see available values."@
}

/// What happens about a resolution. A move into a `done` status that
/// offers (or may require) a resolution must say which one to set:
/// `--resolution` is checked against the names the transition allows (when
/// it lists them); without it, a required resolution is asked for and can
/// never be skipped, an optional one needs `--no-resolution` or an
/// interactive choice, and a non-interactive caller is refused instead of
/// asked. Any other move sends the `--resolution` (resolved by name) or
/// none.
pub open spec fn resolution_step(
    f: ResolutionFacts,
    key: Seq<char>,
    resolution: Option<Seq<char>>,
    no_resolution: bool,
    noninteractive: bool,
) -> StepView {
    let needs = f.is_done_category && (f.offers_resolution || f.is_conditional);
    let allowed = text::views(f.allowed_names@);
    let to = f.to_label@;
    if needs {
        match resolution {
            Some(q) => if allowed.len() > 0 {
                match first_allowed(allowed, q) {
                    Some(n) => StepView::Send(Some(n)),
                    None => StepView::Refuse(not_allowed_text(q, to, allowed)),
                }
            } else {
                StepView::ResolveByName(q)
            },
            None => if f.resolution_required || f.is_conditional {
                if no_resolution {
                    StepView::Refuse(required_no_opt_out_text(key, to))
                } else if noninteractive {
                    StepView::Refuse(required_text(key, to))
                } else {
                    StepView::Prompt { required: true }
                }
            } else {
                if no_resolution {
                    StepView::Send(None)
                } else if noninteractive {
                    StepView::Refuse(must_choose_text(to))
                } else {
                    StepView::Prompt { required: false }
                }
            },
        }
    } else {
        match resolution {
            Some(q) => StepView::ResolveByName(q),
            None => StepView::Send(None),
        }
    }
}

/// Law: a move into a `done` status whose transition is conditional, or
/// whose offered resolution is required, can never go without a
/// resolution when none is given: `--no-resolution` is refused, a
/// non-interactive caller is refused and told to pass `--resolution`, and
/// an interactive one is asked with no opt-out.
pub proof fn law_required_resolution_is_never_skipped(
    f: ResolutionFacts,
    key: Seq<char>,
    no_resolution: bool,
    noninteractive: bool,
)
    requires
        f.is_done_category,
        f.is_conditional || (f.offers_resolution && f.resolution_required),
    ensures
        no_resolution ==> resolution_step(f, key, None, no_resolution, noninteractive)
            == StepView::Refuse(required_no_opt_out_text(key, f.to_label@)),
        !no_resolution && noninteractive ==> resolution_step(
            f,
            key,
            None,
            no_resolution,
            noninteractive,
        ) == StepView::Refuse(required_text(key, f.to_label@)),
        !no_resolution && !noninteractive ==> resolution_step(
            f,
            key,
            None,
            no_resolution,
            noninteractive,
        ) == (StepView::Prompt { required: true }),
{
}

/// Law: a move into a `done` status whose resolution is offered, optional
/// and not conditional, with none given, goes without one only on
/// `--no-resolution`; otherwise it is asked (with the opt-out) or, when
/// non-interactive, refused until the user chooses.
pub proof fn law_optional_resolution_needs_a_choice(
    f: ResolutionFacts,
    key: Seq<char>,
    no_resolution: bool,
    noninteractive: bool,
)
    requires
        f.is_done_category,
        f.offers_resolution,
        !f.is_conditional,
        !f.resolution_required,
    ensures
        resolution_step(f, key, None, no_resolution, noninteractive) == if no_resolution {
            StepView::Send(None)
        } else if noninteractive {
            StepView::Refuse(must_choose_text(f.to_label@))
        } else {
            StepView::Prompt { required: false }
        },
{
}

/// Law: a move that does not enter a `done` status needing a resolution
/// sends exactly what `--resolution` says: nothing without it, the name
/// (resolved) with it.
pub proof fn law_no_gate_outside_done(
    f: ResolutionFacts,
    key: Seq<char>,
    resolution: Option<Seq<char>>,
    no_resolution: bool,
    noninteractive: bool,
)
    requires
        !f.is_done_category || (!f.offers_resolution && !f.is_conditional),
    ensures
        resolution_step(f, key, resolution, no_resolution, noninteractive) == match resolution {
            Some(q) => StepView::ResolveByName(q),
            None => StepView::Send(None),
        },
{
}

fn find_allowed(names: &Vec<String>, q: &str) -> (r: Option<String>)
    ensures
        match first_allowed(text::views(names@), q@) {
            Some(n) => r matches Some(s) && s@ == n,
            None => r is None,
        },
{
    let ghost all = text::views(names@);
    let mut i: usize = 0;
    assert(all.skip(0) =~= all);
    while i < names.len()
        invariant
            i <= names@.len(),
            all == text::views(names@),
            first_allowed(all, q@) == first_allowed(all.skip(i as int), q@),
        decreases names@.len() - i,
    {
        assert(all.skip(i as int)[0] == names@[i as int]@);
        assert(all.skip(i as int).drop_first() =~= all.skip(i + 1));
        if text::str_eq_ignore_ascii_case(names[i].as_str(), q) {
            return Some(names[i].clone());
        }
        i = i + 1;
    }
    None
}

/// Decide what is done about a resolution when moving `key`.
pub fn decide_resolution_step(
    facts: &ResolutionFacts,
    key: &str,
    resolution: Option<&str>,
    no_resolution: bool,
    no_input: bool,
    stdin_is_tty: bool,
) -> (r: ResolutionStep)
    ensures
        r@ == resolution_step(
            *facts,
            key@,
            match resolution {
                Some(q) => Some(q@),
                None => None,
            },
            no_resolution,
            no_input || !stdin_is_tty,
        ),
{
    let needs = facts.is_done_category && (facts.offers_resolution || facts.is_conditional);
    let to = facts.to_label.as_str();
    if !needs {
        return match resolution {
            Some(q) => ResolutionStep::ResolveByName(text::owned(q)),
            None => ResolutionStep::Send(None),
        };
    }
    match resolution {
        Some(q) => {
            if facts.allowed_names.len() > 0 {
                match find_allowed(&facts.allowed_names, q) {
                    Some(n) => ResolutionStep::Send(Some(n)),
                    None => {
                        let mut m = String::from_str("Resolution '");
                        m.append(q);
                        m.append("' is not allowed on the '");
                        m.append(to);
                        m.append("' transition. Allowed: ");
                        let joined = text::join(&facts.allowed_names, ", ");
                        m.append(joined.as_str());
                        m.append(".\n\nRun `jr issue resolutions` to see all instance resolutions.");
                        ResolutionStep::Refuse(m)
                    },
                }
            } else {
                ResolutionStep::ResolveByName(text::owned(q))
            }
        },
        None => {
            let noninteractive = workflow::refuse_noninteractive(no_input, stdin_is_tty);
            if facts.resolution_required || facts.is_conditional {
                if no_resolution {
                    let mut m = String::from_str("The transition to \"");
                    m.append(to);
                    m.append(
                        "\" requires a resolution and --no-resolution cannot be used here.\n\nTry:\n    jr issue move ",
                    );
                    m.append(key);
                    m.append(" ");
                    m.append(to);
                    m.append(" --resolution <name>\n\nRun `jr issue resolutions` to see available values.");
                    ResolutionStep::Refuse(m)
                } else if noninteractive {
                    let mut m = String::from_str("The transition to \"");
                    m.append(to);
                    m.append("\" requires a resolution.\n\nTry:\n    jr issue move ");
                    m.append(key);
                    m.append(" ");
                    m.append(to);
                    m.append(" --resolution <name>\n\nRun `jr issue resolutions` to see available values.");
                    ResolutionStep::Refuse(m)
                } else {
                    ResolutionStep::Prompt { required: true }
                }
            } else {
                if no_resolution {
                    ResolutionStep::Send(None)
                } else if noninteractive {
                    let mut m = String::from_str("The transition to \"");
                    m.append(to);
                    m.append(
                        "\" offers a resolution field. You must explicitly choose:\n\n--resolution <name>   set a resolution\n--no-resolution       opt out (intentional null-resolution close)\n\nRun `jr issue resolutions` to see available values.",
                    );
                    ResolutionStep::Refuse(m)
                } else {
                    ResolutionStep::Prompt { required: false }
                }
            }
        },
    }
}

/// Whether a failed transition's error text says a resolution was
/// required (compared in lower case).
pub fn failure_wants_resolution(error_text: &str) -> (b: bool)
    ensures
        b == (text::contains_seq(text::lowercase_of(error_text@), "resolution"@)
            && text::contains_seq(text::lowercase_of(error_text@), "required"@)),
{
    let l = text::lowercase(error_text);
    let v = text::chars_of(l.as_str());
    let p1 = text::chars_of("resolution");
    let p2 = text::chars_of("required");
    text::contains_chars(&v, &p1) && text::contains_chars(&v, &p2)
}

/// What a transition is shown as leading to: its target status's name,
/// else its own name.
pub open spec fn target_label(t: Transition) -> Seq<char> {
    match t.to {
        Some(s) => s.name@,
        None => t.name@,
    }
}

/// What a transition is shown as leading to.
pub fn transition_target_label(t: &Transition) -> (r: String)
    ensures
        r@ == target_label(*t),
{
    match &t.to {
        Some(s) => s.name.clone(),
        None => t.name.clone(),
    }
}

/// The message when the server refused a transition for want of a resolution.
pub open spec fn resolution_required_text(label: Seq<char>, key: Seq<char>) -> Seq<char> {
    "The \""@ + label + "\" transition requires a resolution.\n\nTry:\n    jr issue move "@ + key
        + " "@ + label + " --resolution <name>\n\nRun `jr issue resolutions` to see available values."@
}

/// What a failed transition of `key` is reported as: when the error text
/// says a resolution was required, a usage error telling how to give one;
/// otherwise `None`, and the error stands as it is.
pub fn failed_transition_error(key: &str, t: &Transition, error_text: &str) -> (r: Option<JrError>)
    ensures
        (text::contains_seq(text::lowercase_of(error_text@), "resolution"@) && text::contains_seq(
            text::lowercase_of(error_text@),
            "required"@,
        )) ==> (r matches Some(JrError::UserError(m)) && m@ == resolution_required_text(
            target_label(*t),
            key@,
        )),
        !(text::contains_seq(text::lowercase_of(error_text@), "resolution"@) && text::contains_seq(
            text::lowercase_of(error_text@),
            "required"@,
        )) ==> r is None,
{
    if !failure_wants_resolution(error_text) {
        return None;
    }
    let label = transition_target_label(t);
    let mut m = String::from_str("The \"");
    m.append(label.as_str());
    m.append("\" transition requires a resolution.\n\nTry:\n    jr issue move ");
    m.append(key);
    m.append(" ");
    m.append(label.as_str());
    m.append(" --resolution <name>\n\nRun `jr issue resolutions` to see available values.");
    Some(JrError::UserError(m))
}

// ───────────────────────────── bulk results ─────────────────────────────

/// What became of one issue of a bulk transition.
pub enum KeyOutcome {
    /// It failed, with this summary.
    Error(String),
    /// It moved.
    Success,
    /// The task neither moved it nor reported it failed.
    Inaccessible,
}

pub enum KeyOutcomeView {
    Error(Seq<char>),
    Success,
    Inaccessible,
}

impl View for KeyOutcome {
    type V = KeyOutcomeView;

    open spec fn view(&self) -> KeyOutcomeView {
        match self {
            KeyOutcome::Error(s) => KeyOutcomeView::Error(s@),
            KeyOutcome::Success => KeyOutcomeView::Success,
            KeyOutcome::Inaccessible => KeyOutcomeView::Inaccessible,
        }
    }
}

/// The summary of the first failure reported for `key`, if any.
pub open spec fn failure_of(failed: Seq<(String, String)>, key: Seq<char>) -> Option<Seq<char>>
    decreases failed.len(),
{
    if failed.len() == 0 {
        None
    } else if failed[0].0@ == key {
        Some(failed[0].1@)
    } else {
        failure_of(failed.drop_first(), key)
    }
}

/// The outcome of one key: failed when a failure is reported for it,
/// moved when the task processed it, inaccessible otherwise.
pub open spec fn key_outcome(key: Seq<char>, processed: Seq<Seq<char>>, failed: Seq<(String, String)>) -> KeyOutcomeView {
    match failure_of(failed, key) {
        Some(s) => KeyOutcomeView::Error(s),
        None => if processed.contains(key) {
            KeyOutcomeView::Success
        } else {
            KeyOutcomeView::Inaccessible
        },
    }
}

fn find_failure(failed: &[(String, String)], key: &str) -> (r: Option<String>)
    ensures
        match failure_of(failed@, key@) {
            Some(s) => r matches Some(x) && x@ == s,
            None => r is None,
        },
{
    let mut i: usize = 0;
    assert(failed@.skip(0) =~= failed@);
    while i < failed.len()
        invariant
            i <= failed@.len(),
            failure_of(failed@, key@) == failure_of(failed@.skip(i as int), key@),
        decreases failed@.len() - i,
    {
        assert(failed@.skip(i as int)[0] == failed@[i as int]);
        assert(failed@.skip(i as int).drop_first() =~= failed@.skip(i + 1));
        if text::str_eq(failed[i].0.as_str(), key) {
            return Some(failed[i].1.clone());
        }
        i = i + 1;
    }
    None
}

/// What became of each issue of a bulk transition, in the order given:
/// `processed` holds the keys the task moved, `failed` each failed key with
/// the summary of its error.
pub fn bulk_key_outcomes(keys: &[String], processed: &[String], failed: &[(String, String)]) -> (r: Vec<KeyOutcome>)
    ensures
        r@.len() == keys@.len(),
        forall|i: int|
            0 <= i < keys@.len() ==> (#[trigger] r@[i])@ == key_outcome(
                keys@[i]@,
                text::views(processed@),
                failed@,
            ),
{
    let pv = text::clone_strings(processed);
    let mut out: Vec<KeyOutcome> = Vec::new();
    let mut i: usize = 0;
    while i < keys.len()
        invariant
            i <= keys@.len(),
            pv@ == processed@,
            out@.len() == i,
            forall|j: int|
                0 <= j < i ==> (#[trigger] out@[j])@ == key_outcome(
                    keys@[j]@,
                    text::views(processed@),
                    failed@,
                ),
        decreases keys@.len() - i,
    {
        let k = keys[i].as_str();
        let o = match find_failure(failed, k) {
            Some(s) => KeyOutcome::Error(s),
            None => {
                if contains_lowered(&pv, k) {
                    KeyOutcome::Success
                } else {
                    KeyOutcome::Inaccessible
                }
            },
        };
        out.push(o);
        i = i + 1;
    }
    out
}

} // verus!

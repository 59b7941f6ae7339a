//! The `--component` filter of `issue list`: what its values ask for, how
//! one name resolves to component ids, and the JQL the ids compose into.
use vstd::prelude::*;

use crate::error::JrError;
use crate::issue_list::{is_all_value, is_none_value};
use crate::ordered;
use crate::partial_match::{MatchResult, MatchView};
use crate::text;
use crate::types::component::Component;

verus! {

// ───────────────────────────── splitting ─────────────────────────────

/// `s.split(sep)`: the pieces between the separators, so that `n`
/// separators give `n + 1` pieces (some of them possibly empty).
pub open spec fn split_on(s: Seq<char>, sep: char) -> Seq<Seq<char>>
    decreases s.len(),
{
    if s.len() == 0 {
        seq![Seq::<char>::empty()]
    } else {
        let p = split_on(s.drop_last(), sep);
        if s.last() == sep {
            p.push(Seq::<char>::empty())
        } else {
            p.update(p.len() - 1, p.last().push(s.last()))
        }
    }
}

proof fn lemma_split_on_nonempty(s: Seq<char>, sep: char)
    ensures
        split_on(s, sep).len() >= 1,
    decreases s.len(),
{
    if s.len() > 0 {
        lemma_split_on_nonempty(s.drop_last(), sep);
    }
}

/// Split `s` at every `sep`, as `str::split` does with a `char`.
pub fn split_at_char(s: &str, sep: char) -> (r: Vec<String>)
    ensures
        text::views(r@) == split_on(s@, sep),
{
    let v = text::chars_of(s);
    let mut pieces: Vec<String> = Vec::new();
    let mut cur: Vec<char> = Vec::new();
    let mut i: usize = 0;
    assert(s@.take(0) =~= Seq::<char>::empty());
    assert(text::views(pieces@).push(cur@) =~= split_on(s@.take(0), sep));
    while i < v.len()
        invariant
            i <= v.len(),
            v@ == s@,
            text::views(pieces@).push(cur@) == split_on(s@.take(i as int), sep),
        decreases v.len() - i,
    {
        let c = v[i];
        let ghost before = split_on(s@.take(i as int), sep);
        assert(s@.take(i + 1).drop_last() =~= s@.take(i as int));
        assert(s@.take(i + 1).last() == c);
        if c == sep {
            let piece = text::string_from_chars(cur.as_slice());
            pieces.push(piece);
            cur = Vec::new();
            assert(text::views(pieces@).push(cur@) =~= before.push(Seq::<char>::empty()));
        } else {
            cur.push(c);
            assert(text::views(pieces@).push(cur@) =~= before.update(
                before.len() - 1,
                before.last().push(c),
            ));
        }
        i = i + 1;
    }
    assert(s@.take(v.len() as int) =~= s@);
    let last = text::string_from_chars(cur.as_slice());
    let ghost whole = text::views(pieces@).push(cur@);
    pieces.push(last);
    assert(text::views(pieces@) =~= whole);
    pieces
}

// ───────────────────────────── what the values ask for ─────────────────────────────

/// What a list of `--component` values asks for.
pub enum ComponentRequest {
    /// `none`: issues without a component.
    NoComponent,
    /// `all:<name>,<name>,…`: issues that have every one of the components.
    AllOf(Vec<String>),
    /// Bare names (issues with any of them) and `not:<name>` values
    /// (issues with none of them, or with no component at all).
    AnyOf { wanted: Vec<String>, unwanted: Vec<String> },
}

/// A `ComponentRequest` seen as character sequences.
pub enum ComponentRequestView {
    NoComponent,
    AllOf(Seq<Seq<char>>),
    AnyOf { wanted: Seq<Seq<char>>, unwanted: Seq<Seq<char>> },
}

impl View for ComponentRequest {
    type V = ComponentRequestView;

    open spec fn view(&self) -> ComponentRequestView {
        match self {
            ComponentRequest::NoComponent => ComponentRequestView::NoComponent,
            ComponentRequest::AllOf(v) => ComponentRequestView::AllOf(text::views(v@)),
            ComponentRequest::AnyOf { wanted, unwanted } => ComponentRequestView::AnyOf {
                wanted: text::views(wanted@),
                unwanted: text::views(unwanted@),
            },
        }
    }
}

/// The `not:` form.
pub open spec fn is_not_value(v: Seq<char>) -> bool {
    text::has_prefix(v, "not:"@)
}

/// The first `all:` value, if any.
pub open spec fn first_all_value(vs: Seq<Seq<char>>) -> Option<Seq<char>>
    decreases vs.len(),
{
    if vs.len() == 0 {
        None
    } else {
        match first_all_value(vs.drop_last()) {
            Some(v) => Some(v),
            None => if is_all_value(vs.last()) {
                Some(vs.last())
            } else {
                None
            },
        }
    }
}

/// The bare values, in order.
pub open spec fn bare_values(vs: Seq<Seq<char>>) -> Seq<Seq<char>>
    decreases vs.len(),
{
    if vs.len() == 0 {
        Seq::empty()
    } else if is_not_value(vs.last()) {
        bare_values(vs.drop_last())
    } else {
        bare_values(vs.drop_last()).push(vs.last())
    }
}

/// The names of the `not:` values, in order.
pub open spec fn negated_names(vs: Seq<Seq<char>>) -> Seq<Seq<char>>
    decreases vs.len(),
{
    if vs.len() == 0 {
        Seq::empty()
    } else if is_not_value(vs.last()) {
        negated_names(vs.drop_last()).push(vs.last().skip(4))
    } else {
        negated_names(vs.drop_last())
    }
}

/// What the values ask for: a sole `none`; else the names of the first
/// `all:` value; else the bare names and the `not:` names.
pub open spec fn component_request(vs: Seq<Seq<char>>) -> ComponentRequestView {
    if vs.len() == 1 && is_none_value(vs[0]) {
        ComponentRequestView::NoComponent
    } else {
        match first_all_value(vs) {
            Some(v) => ComponentRequestView::AllOf(split_on(v.skip(4), ',')),
            None => ComponentRequestView::AnyOf {
                wanted: bare_values(vs),
                unwanted: negated_names(vs),
            },
        }
    }
}

/// The tail of `s` from character `from` on.
fn tail_from(s: &str, from: usize) -> (r: String)
    requires
        from <= s@.len(),
    ensures
        r@ == s@.skip(from as int),
{
    let v = text::chars_of(s);
    text::string_from_chars(v.as_slice().split_at(from).1)
}

/// Sort the `--component` values (checked beforehand by
/// `validate_component_preflight`) into what they ask for.
pub fn classify_component_values(values: &[String]) -> (r: ComponentRequest)
    ensures
        r@ == component_request(text::views(values@)),
{
    let ghost vs = text::views(values@);
    proof {
        reveal_strlit("all:");
        reveal_strlit("not:");
    }
    if values.len() == 1 && text::str_eq_ignore_ascii_case(values[0].as_str(), "none") {
        return ComponentRequest::NoComponent;
    }
    let mut wanted: Vec<String> = Vec::new();
    let mut unwanted: Vec<String> = Vec::new();
    let mut i: usize = 0;
    while i < values.len()
        invariant
            i <= values@.len(),
            vs == text::views(values@),
            "all:"@.len() == 4,
            "not:"@.len() == 4,
            !(vs.len() == 1 && is_none_value(vs[0])),
            first_all_value(vs.take(i as int)) is None,
            text::views(wanted@) == bare_values(vs.take(i as int)),
            text::views(unwanted@) == negated_names(vs.take(i as int)),
        decreases values@.len() - i,
    {
        let ghost t = vs.take(i + 1);
        assert(t.drop_last() =~= vs.take(i as int));
        assert(t.last() == values@[i as int]@);
        let v = values[i].as_str();
        if text::str_starts_with(v, "all:") {
            proof {
                lemma_first_all_value_prefix(vs, i as int + 1);
            }
            let rest = tail_from(v, 4);
            let names = split_at_char(rest.as_str(), ',');
            assert(first_all_value(vs) == Some(values@[i as int]@));
            assert(rest@ == vs[i as int].skip(4));
            return ComponentRequest::AllOf(names);
        }
        if text::str_starts_with(v, "not:") {
            unwanted.push(tail_from(v, 4));
        } else {
            wanted.push(values[i].clone());
        }
        i = i + 1;
    }
    assert(vs.take(values@.len() as int) =~= vs);
    ComponentRequest::AnyOf { wanted, unwanted }
}

/// Once the first `all:` value lies within the first `k` values, it is the
/// first of the whole list too.
proof fn lemma_first_all_value_prefix(vs: Seq<Seq<char>>, k: int)
    requires
        0 <= k <= vs.len(),
        first_all_value(vs.take(k)) is Some,
    ensures
        first_all_value(vs) == first_all_value(vs.take(k)),
    decreases vs.len() - k,
{
    if k < vs.len() {
        assert(vs.take(k + 1).drop_last() =~= vs.take(k));
        lemma_first_all_value_prefix(vs, k + 1);
    } else {
        assert(vs.take(k) =~= vs);
    }
}


// ───────────────────────────── sorting ─────────────────────────────

/// Where an id sorts: `id.parse::<u64>().unwrap_or(u64::MAX)`.
pub open spec fn id_rank(id: Seq<char>) -> u64 {
    match text::parsed_decimal(id, u64::MAX as nat) {
        Some(n) => n as u64,
        None => u64::MAX,
    }
}

/// The rank of each id.
pub open spec fn ranks_of(ids: Seq<Seq<char>>) -> Seq<u64> {
    ids.map_values(|id: Seq<char>| id_rank(id))
}

/// The lower-cased form of each name.
pub open spec fn lowercases_of(names: Seq<Seq<char>>) -> Seq<Seq<char>> {
    names.map_values(|n: Seq<char>| text::lowercase_of(n))
}

/// `r` is `ids` stably sorted by numeric value, ids that are not numbers last.
pub open spec fn sorted_by_number(ids: Seq<Seq<char>>, r: Seq<Seq<char>>) -> bool {
    exists|perm: Seq<usize>|
        ordered::stable_order(ranks_of(ids), ordered::u64_lt(), perm) && r == ordered::arranged(
            ids,
            perm,
        )
}

/// `r` is `names` stably sorted by their lower-cased forms.
pub open spec fn sorted_by_lowercase(names: Seq<Seq<char>>, r: Seq<Seq<char>>) -> bool {
    exists|perm: Seq<usize>|
        ordered::stable_order(lowercases_of(names), ordered::text_lt(), perm) && r
            == ordered::arranged(names, perm)
}

/// The strings in the order `perm`.
fn take_in_order(items: &Vec<String>, perm: &Vec<usize>) -> (r: Vec<String>)
    requires
        forall|t: int| 0 <= t < perm@.len() ==> #[trigger] perm@[t] < items@.len(),
    ensures
        text::views(r@) == ordered::arranged(text::views(items@), perm@),
{
    let mut r: Vec<String> = Vec::new();
    let mut t: usize = 0;
    while t < perm.len()
        invariant
            t <= perm@.len(),
            r@.len() == t,
            forall|u: int| 0 <= u < perm@.len() ==> #[trigger] perm@[u] < items@.len(),
            text::views(r@) == ordered::arranged(text::views(items@), perm@).take(t as int),
        decreases perm@.len() - t,
    {
        let k = perm[t];
        let ghost before = r@;
        r.push(items[k].clone());
        assert(r@[t as int]@ == text::views(items@)[k as int]);
        assert(ordered::arranged(text::views(items@), perm@)[t as int] == text::views(items@)[perm@[t as int] as int]);
        assert(text::views(r@) =~= ordered::arranged(text::views(items@), perm@).take(t + 1));
        t = t + 1;
    }
    assert(ordered::arranged(text::views(items@), perm@).take(perm@.len() as int)
        =~= ordered::arranged(text::views(items@), perm@));
    r
}

/// Sort ids by numeric value (`sort_by_key(|id| id.parse::<u64>().unwrap_or(u64::MAX))`).
pub fn sort_by_number(ids: &Vec<String>) -> (r: Vec<String>)
    ensures
        sorted_by_number(text::views(ids@), text::views(r@)),
{
    let ghost vs = text::views(ids@);
    let mut ranks: Vec<u64> = Vec::new();
    let mut i: usize = 0;
    while i < ids.len()
        invariant
            i <= ids@.len(),
            vs == text::views(ids@),
            ranks@.len() == i,
            ranks@ == ranks_of(vs).take(i as int),
        decreases ids@.len() - i,
    {
        let rank = match text::parse_decimal(ids[i].as_str(), u64::MAX) {
            Some(n) => n,
            None => u64::MAX,
        };
        ranks.push(rank);
        assert(ranks@ =~= ranks_of(vs).take(i + 1));
        i = i + 1;
    }
    assert(ranks@ =~= ranks_of(vs));
    let perm = ordered::stable_order_by_rank(&ranks);
    let r = take_in_order(ids, &perm);
    assert(ordered::stable_order(ranks_of(vs), ordered::u64_lt(), perm@));
    r
}

/// Sort names by their lower-cased forms (`sort_by_key(|s| s.to_lowercase())`).
pub fn sort_by_lowercase(names: &Vec<String>) -> (r: Vec<String>)
    ensures
        sorted_by_lowercase(text::views(names@), text::views(r@)),
{
    let ghost vs = text::views(names@);
    let mut keys: Vec<Vec<char>> = Vec::new();
    let mut i: usize = 0;
    while i < names.len()
        invariant
            i <= names@.len(),
            vs == text::views(names@),
            keys@.len() == i,
            ordered::char_views(keys@) == lowercases_of(vs).take(i as int),
        decreases names@.len() - i,
    {
        let low = text::lowercase(names[i].as_str());
        keys.push(text::chars_of(low.as_str()));
        assert(keys@[i as int]@ == text::lowercase_of(vs[i as int]));
        assert(ordered::char_views(keys@) =~= lowercases_of(vs).take(i + 1));
        i = i + 1;
    }
    assert(ordered::char_views(keys@) =~= lowercases_of(vs));
    let perm = ordered::stable_order_by_text(&keys);
    let r = take_in_order(names, &perm);
    assert(ordered::stable_order(lowercases_of(vs), ordered::text_lt(), perm@));
    r
}


// ───────────────────────────── one name to ids ─────────────────────────────

/// The index of the first component named exactly `name`, if any.
pub open spec fn first_component_named(cs: Seq<Component>, name: Seq<char>) -> Option<int>
    decreases cs.len(),
{
    if cs.len() == 0 {
        None
    } else {
        match first_component_named(cs.drop_last(), name) {
            Some(k) => Some(k),
            None => if cs.last().name@ == name {
                Some(cs.len() - 1)
            } else {
                None
            },
        }
    }
}

/// The ids of the components whose lower-cased name is `key`, in order.
pub open spec fn ids_with_lowercase_name(cs: Seq<Component>, key: Seq<char>) -> Seq<Seq<char>>
    decreases cs.len(),
{
    if cs.len() == 0 {
        Seq::empty()
    } else if text::lowercase_of(cs.last().name@) == key {
        ids_with_lowercase_name(cs.drop_last(), key).push(cs.last().id@)
    } else {
        ids_with_lowercase_name(cs.drop_last(), key)
    }
}

/// The first of the names, or the empty name when there is none.
pub open spec fn first_or_empty(ns: Seq<Seq<char>>) -> Seq<char> {
    if ns.len() > 0 {
        ns[0]
    } else {
        Seq::empty()
    }
}

/// The message for a matched name that the component list does not hold.
pub open spec fn missing_from_list_text(name: Seq<char>) -> Seq<char> {
    "Internal error: resolved component name '"@ + name + "' not found in list."@
}

/// The message for a name that several components contain.
pub open spec fn ambiguous_component_text(input: Seq<char>, sorted: Seq<Seq<char>>) -> Seq<char> {
    "Ambiguous component '"@ + input + "'. Matches: "@ + text::join_seq(sorted, ", "@) + "."@
}

/// The message for a name that no component matches.
pub open spec fn unknown_component_text(
    input: Seq<char>,
    project: Seq<char>,
    sorted: Seq<Seq<char>>,
) -> Seq<char> {
    "Component '"@ + input + "' not found in project "@ + project + ". Available: "@
        + text::join_seq(sorted, ", "@) + "."@
}

/// `msg` refuses `input` as ambiguous, listing the candidates `ns`
/// sorted by their lower-cased forms.
pub open spec fn ambiguous_refusal(input: Seq<char>, ns: Seq<Seq<char>>, msg: Seq<char>) -> bool {
    exists|sorted: Seq<Seq<char>>|
        #[trigger] sorted_by_lowercase(ns, sorted) && msg == ambiguous_component_text(input, sorted)
}

/// `msg` refuses `input` as unknown in `project`, listing the components
/// `ns` sorted by their lower-cased forms.
pub open spec fn unknown_refusal(
    input: Seq<char>,
    project: Seq<char>,
    ns: Seq<Seq<char>>,
    msg: Seq<char>,
) -> bool {
    exists|sorted: Seq<Seq<char>>|
        #[trigger] sorted_by_lowercase(ns, sorted) && msg == unknown_component_text(
            input,
            project,
            sorted,
        )
}

/// The ids one `--component` name stands for, given how it matched the
/// project's component names (`resolved`) and whether it was taken as a
/// component id as it stands (`by_id`).
pub open spec fn component_ids_outcome(
    input: Seq<char>,
    project: Seq<char>,
    cs: Seq<Component>,
    resolved: MatchView,
    by_id: bool,
    r: Result<Seq<Seq<char>>, JrError>,
) -> bool {
    match resolved {
        MatchView::Exact(m) => if by_id {
            r matches Ok(v) && v == seq![m]
        } else {
            match first_component_named(cs, m) {
                Some(k) => r matches Ok(v) && v == seq![cs[k].id@],
                None => r matches Err(JrError::Internal(x)) && x@ == missing_from_list_text(m),
            }
        },
        MatchView::ExactMultiple(ns) => {
            let ids = ids_with_lowercase_name(cs, text::lowercase_of(first_or_empty(ns)));
            if ids.len() == 0 {
                r matches Err(JrError::Internal(x)) && x@ == missing_from_list_text(
                    first_or_empty(ns),
                )
            } else {
                r matches Ok(v) && sorted_by_number(ids, v)
            }
        },
        MatchView::Ambiguous(ns) => r matches Err(JrError::UserError(x)) && ambiguous_refusal(
            input,
            ns,
            x@,
        ),
        MatchView::NoMatch(ns) => r matches Err(JrError::UserError(x)) && unknown_refusal(
            input,
            project,
            ns,
            x@,
        ),
    }
}

/// The result with the ids seen as character sequences.
pub open spec fn ids_view(r: Result<Vec<String>, JrError>) -> Result<Seq<Seq<char>>, JrError> {
    match r {
        Ok(v) => Ok(text::views(v@)),
        Err(e) => Err(e),
    }
}

fn missing_from_list(name: &str) -> (e: JrError)
    ensures
        e matches JrError::Internal(x) && x@ == missing_from_list_text(name@),
{
    let mut m = String::from_str("Internal error: resolved component name '");
    m.append(name);
    m.append("' not found in list.");
    JrError::Internal(m)
}

/// The id of the first component named exactly `name`.
fn id_of_component_named(components: &[Component], name: &str) -> (r: Result<Vec<String>, JrError>)
    ensures
        match first_component_named(components@, name@) {
            Some(k) => r matches Ok(v) && text::views(v@) == seq![components@[k].id@],
            None => r matches Err(JrError::Internal(x)) && x@ == missing_from_list_text(name@),
        },
{
    let ghost cs = components@;
    let mut k: usize = 0;
    while k < components.len()
        invariant
            k <= cs.len(),
            cs == components@,
            first_component_named(cs.take(k as int), name@) is None,
        decreases cs.len() - k,
    {
        assert(cs.take(k + 1).drop_last() =~= cs.take(k as int));
        if text::str_eq(components[k].name.as_str(), name) {
            assert(cs.take(k + 1).last() == cs[k as int]);
            assert(first_component_named(cs.take(k + 1), name@) == Some(k as int));
            proof {
                lemma_first_component_named_prefix(cs, name@, k as int + 1);
            }
            let v = vec![components[k].id.clone()];
            assert(text::views(v@) =~= seq![cs[k as int].id@]);
            return Ok(v);
        }
        k = k + 1;
    }
    assert(cs.take(cs.len() as int) =~= cs);
    Err(missing_from_list(name))
}

/// The ids, ascending by number, of every component whose name lower-cases
/// as `name` does.
fn ids_of_case_variants(components: &[Component], name: &str) -> (r: Result<Vec<String>, JrError>)
    ensures
        ({
            let ids = ids_with_lowercase_name(components@, text::lowercase_of(name@));
            if ids.len() == 0 {
                r matches Err(JrError::Internal(x)) && x@ == missing_from_list_text(name@)
            } else {
                r matches Ok(v) && sorted_by_number(ids, text::views(v@))
            }
        }),
{
    let ghost cs = components@;
    let key = text::lowercase(name);
    let mut ids: Vec<String> = Vec::new();
    let mut k: usize = 0;
    while k < components.len()
        invariant
            k <= cs.len(),
            cs == components@,
            key@ == text::lowercase_of(name@),
            text::views(ids@) == ids_with_lowercase_name(cs.take(k as int), key@),
        decreases cs.len() - k,
    {
        assert(cs.take(k + 1).drop_last() =~= cs.take(k as int));
        let low = text::lowercase(components[k].name.as_str());
        if text::str_eq(low.as_str(), key.as_str()) {
            ids.push(components[k].id.clone());
        }
        assert(text::views(ids@) =~= ids_with_lowercase_name(cs.take(k + 1), key@));
        k = k + 1;
    }
    assert(cs.take(cs.len() as int) =~= cs);
    if ids.len() == 0 {
        return Err(missing_from_list(name));
    }
    Ok(sort_by_number(&ids))
}

/// The refusal of a name that several components contain.
fn ambiguous_component(input: &str, candidates: &Vec<String>) -> (e: JrError)
    ensures
        e matches JrError::UserError(x) && ambiguous_refusal(input@, text::views(candidates@), x@),
{
    let sorted = sort_by_lowercase(candidates);
    let mut m = String::from_str("Ambiguous component '");
    m.append(input);
    m.append("'. Matches: ");
    m.append(text::join(&sorted, ", ").as_str());
    m.append(".");
    assert(sorted_by_lowercase(text::views(candidates@), text::views(sorted@)));
    JrError::UserError(m)
}

/// The refusal of a name that no component matches.
fn unknown_component(input: &str, project: &str, available: &Vec<String>) -> (e: JrError)
    ensures
        e matches JrError::UserError(x) && unknown_refusal(
            input@,
            project@,
            text::views(available@),
            x@,
        ),
{
    let sorted = sort_by_lowercase(available);
    let mut m = String::from_str("Component '");
    m.append(input);
    m.append("' not found in project ");
    m.append(project);
    m.append(". Available: ");
    m.append(text::join(&sorted, ", ").as_str());
    m.append(".");
    assert(sorted_by_lowercase(text::views(available@), text::views(sorted@)));
    JrError::UserError(m)
}

/// Resolve one `--component` name (its `not:` or `all:` prefix already
/// taken off) to component ids. An exact match is one id — the input itself
/// when it was taken as an id, else the id of the first component of that
/// name; names that differ only in case give every such component's id,
/// ascending by number; an ambiguous or unknown name is refused with the
/// sorted candidates.
pub fn resolve_one_component_id(
    input: &str,
    project: &str,
    components: &[Component],
    resolved: MatchResult,
    by_id: bool,
) -> (r: Result<Vec<String>, JrError>)
    ensures
        component_ids_outcome(input@, project@, components@, resolved@, by_id, ids_view(r)),
{
    match resolved {
        MatchResult::Exact(matched) => {
            if by_id {
                let ghost m = matched@;
                let v = vec![matched];
                assert(text::views(v@) =~= seq![m]);
                Ok(v)
            } else {
                id_of_component_named(components, matched.as_str())
            }
        },
        MatchResult::ExactMultiple(names) => {
            let first = if names.len() > 0 {
                names[0].clone()
            } else {
                String::new()
            };
            assert(first@ == first_or_empty(text::views(names@)));
            ids_of_case_variants(components, first.as_str())
        },
        MatchResult::Ambiguous(candidates) => Err(ambiguous_component(input, &candidates)),
        MatchResult::NoMatch(available) => Err(unknown_component(input, project, &available)),
    }
}

/// Once the first component of a name lies within the first `k`, it is
/// the first of the whole list too.
proof fn lemma_first_component_named_prefix(cs: Seq<Component>, name: Seq<char>, k: int)
    requires
        0 <= k <= cs.len(),
        first_component_named(cs.take(k), name) is Some,
    ensures
        first_component_named(cs, name) == first_component_named(cs.take(k), name),
    decreases cs.len() - k,
{
    if k < cs.len() {
        assert(cs.take(k + 1).drop_last() =~= cs.take(k));
        lemma_first_component_named_prefix(cs, name, k + 1);
    } else {
        assert(cs.take(k) =~= cs);
    }
}


// ───────────────────────────── the JQL ─────────────────────────────

/// The ids of each resolved name, as character sequences.
pub open spec fn id_lists(v: Seq<Vec<String>>) -> Seq<Seq<Seq<char>>> {
    v.map_values(|ids: Vec<String>| text::views(ids@))
}

/// The lists one after another.
pub open spec fn flatten(lists: Seq<Seq<Seq<char>>>) -> Seq<Seq<char>>
    decreases lists.len(),
{
    if lists.len() == 0 {
        Seq::empty()
    } else {
        flatten(lists.drop_last()) + lists.last()
    }
}

/// The clauses for bare names resolved to `wanted` and `not:` names
/// resolved to `unwanted`: `component in (…)` first, then
/// `(component not in (…) OR component is EMPTY)`, each only when it has ids.
pub open spec fn any_of_clauses_text(wanted: Seq<Seq<char>>, unwanted: Seq<Seq<char>>) -> Seq<
    Seq<char>,
> {
    (if wanted.len() > 0 {
        seq!["component in ("@ + text::join_seq(wanted, ", "@) + ")"@]
    } else {
        Seq::empty()
    }) + (if unwanted.len() > 0 {
        seq![
            "(component not in ("@ + text::join_seq(unwanted, ", "@)
                + ") OR component is EMPTY)"@,
        ]
    } else {
        Seq::empty()
    })
}

/// `component = <id>`.
pub open spec fn equality_term(id: Seq<char>) -> Seq<char> {
    "component = "@ + id
}

/// The term for one `all:` name: its single id's equality, or the
/// parenthesised OR of the equalities of all its ids.
pub open spec fn all_of_term(ids: Seq<Seq<char>>) -> Seq<char> {
    if ids.len() == 1 {
        equality_term(ids[0])
    } else {
        "("@ + text::join_seq(ids.map_values(|id: Seq<char>| equality_term(id)), " OR "@) + ")"@
    }
}

/// The clause for an `all:` value: the terms of its names joined by `AND`.
pub open spec fn all_of_clause_text(per_name: Seq<Seq<Seq<char>>>) -> Seq<char> {
    text::join_seq(per_name.map_values(|ids: Seq<Seq<char>>| all_of_term(ids)), " AND "@)
}

/// The clauses for `--component none`.
pub fn no_component_clauses() -> (r: Vec<String>)
    ensures
        text::views(r@) == seq!["component is EMPTY"@],
{
    let r = vec![String::from_str("component is EMPTY")];
    assert(text::views(r@) =~= seq!["component is EMPTY"@]);
    r
}

/// All the ids, list after list.
fn concat_ids(lists: &Vec<Vec<String>>) -> (r: Vec<String>)
    ensures
        text::views(r@) == flatten(id_lists(lists@)),
{
    let ghost ls = id_lists(lists@);
    let mut r: Vec<String> = Vec::new();
    let mut i: usize = 0;
    while i < lists.len()
        invariant
            i <= lists@.len(),
            ls == id_lists(lists@),
            text::views(r@) == flatten(ls.take(i as int)),
        decreases lists@.len() - i,
    {
        assert(ls.take(i + 1).drop_last() =~= ls.take(i as int));
        let ghost before = r@;
        let mut j: usize = 0;
        while j < lists[i].len()
            invariant
                i < lists@.len(),
                j <= lists@[i as int]@.len(),
                r@.len() == before.len() + j,
                r@.take(before.len() as int) == before,
                text::views(r@) == text::views(before) + text::views(lists@[i as int]@).take(j as int),
            decreases lists@[i as int]@.len() - j,
        {
            let ghost rr = r@;
            let ghost li = text::views(lists@[i as int]@);
            r.push(lists[i][j].clone());
            assert(text::views(r@) =~= text::views(rr).push(li[j as int]));
            assert(li.take(j + 1) =~= li.take(j as int).push(li[j as int]));
            assert(text::views(r@) =~= text::views(before) + text::views(lists@[i as int]@).take(j + 1));
            assert(r@.take(before.len() as int) =~= before);
            j = j + 1;
        }
        assert(text::views(lists@[i as int]@).take(j as int) =~= text::views(lists@[i as int]@));
        assert(ls.take(i + 1).last() == text::views(lists@[i as int]@));
        i = i + 1;
    }
    assert(ls.take(lists@.len() as int) =~= ls);
    r
}

/// The clauses for bare and `not:` names, given the ids each name resolved
/// to (in the order the names were given).
pub fn any_of_clauses(wanted: &Vec<Vec<String>>, unwanted: &Vec<Vec<String>>) -> (r: Vec<String>)
    ensures
        text::views(r@) == any_of_clauses_text(
            flatten(id_lists(wanted@)),
            flatten(id_lists(unwanted@)),
        ),
{
    let w = concat_ids(wanted);
    let u = concat_ids(unwanted);
    let mut r: Vec<String> = Vec::new();
    if w.len() > 0 {
        let mut c = String::from_str("component in (");
        c.append(text::join(&w, ", ").as_str());
        c.append(")");
        r.push(c);
    }
    let ghost first = r@;
    if u.len() > 0 {
        let mut c = String::from_str("(component not in (");
        c.append(text::join(&u, ", ").as_str());
        c.append(") OR component is EMPTY)");
        r.push(c);
    }
    assert(text::views(r@) =~= any_of_clauses_text(text::views(w@), text::views(u@)));
    r
}

/// The equality term of each id.
fn equality_terms(ids: &Vec<String>) -> (r: Vec<String>)
    ensures
        text::views(r@) == text::views(ids@).map_values(|id: Seq<char>| equality_term(id)),
{
    let mut r: Vec<String> = Vec::new();
    let mut i: usize = 0;
    while i < ids.len()
        invariant
            i <= ids@.len(),
            r@.len() == i,
            text::views(r@) == text::views(ids@).map_values(|id: Seq<char>| equality_term(id)).take(
                i as int,
            ),
        decreases ids@.len() - i,
    {
        let mut t = String::from_str("component = ");
        t.append(ids[i].as_str());
        r.push(t);
        assert(r@[i as int]@ == equality_term(ids@[i as int]@));
        assert(text::views(r@) =~= text::views(ids@).map_values(
            |id: Seq<char>| equality_term(id),
        ).take(i + 1));
        i = i + 1;
    }
    assert(text::views(ids@).map_values(|id: Seq<char>| equality_term(id)).take(ids@.len() as int)
        =~= text::views(ids@).map_values(|id: Seq<char>| equality_term(id)));
    r
}

/// The clause for an `all:` value, given the ids each of its names resolved to.
pub fn all_of_clause(per_name: &Vec<Vec<String>>) -> (r: String)
    ensures
        r@ == all_of_clause_text(id_lists(per_name@)),
{
    let ghost ls = id_lists(per_name@);
    let mut terms: Vec<String> = Vec::new();
    let mut i: usize = 0;
    while i < per_name.len()
        invariant
            i <= per_name@.len(),
            ls == id_lists(per_name@),
            terms@.len() == i,
            text::views(terms@) == ls.map_values(|ids: Seq<Seq<char>>| all_of_term(ids)).take(
                i as int,
            ),
        decreases per_name@.len() - i,
    {
        let ids = &per_name[i];
        assert(ls[i as int] == text::views(ids@));
        let term = if ids.len() == 1 {
            let mut t = String::from_str("component = ");
            t.append(ids[0].as_str());
            t
        } else {
            let eqs = equality_terms(ids);
            let mut t = String::from_str("(");
            t.append(text::join(&eqs, " OR ").as_str());
            t.append(")");
            t
        };
        proof {
            if ids@.len() == 1 {
                assert(text::views(ids@)[0] == ids@[0]@);
            }
        }
        assert(term@ == all_of_term(ls[i as int]));
        terms.push(term);
        assert(text::views(terms@) =~= ls.map_values(|ids: Seq<Seq<char>>| all_of_term(ids)).take(
            i + 1,
        ));
        i = i + 1;
    }
    assert(ls.map_values(|ids: Seq<Seq<char>>| all_of_term(ids)).take(per_name@.len() as int)
        =~= ls.map_values(|ids: Seq<Seq<char>>| all_of_term(ids)));
    text::join(&terms, " AND ")
}

} // verus!

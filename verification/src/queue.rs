//! The decisions of `queue view`: which queue a name designates, which of
//! its columns are fetched, the JQL that fetches its issues, and the order
//! they are shown in.
use vstd::prelude::*;

use crate::error;
use crate::error::JrError;
use crate::partial_match;
use crate::partial_match::MatchResult;
use crate::text;
use crate::types::jira::Issue;
use crate::types::jsm::Queue;

verus! {

/// Where a resolved queue's id came from.
pub enum QueueIdSource {
    /// `--id` was given directly; the queue's declared fields are not known yet.
    ById(String),
    /// Resolved by name, with the queue's declared fields at hand.
    ByName { id: String, fields: Option<Vec<String>> },
}

impl QueueIdSource {
    pub open spec fn id_view(&self) -> Seq<char> {
        match self {
            QueueIdSource::ById(id) => id@,
            QueueIdSource::ByName { id, .. } => id@,
        }
    }

    /// The queue id, however it was obtained.
    pub fn id(&self) -> (r: &str)
        ensures
            r@ == self.id_view(),
    {
        match self {
            QueueIdSource::ById(id) => id.as_str(),
            QueueIdSource::ByName { id, .. } => id.as_str(),
        }
    }
}

// ───────────────────────────── one-line causes ─────────────────────────────

/// The longest cause (in characters) shown in a degrade warning.
pub const MAX_CAUSE_LEN: usize = 200;

/// `s` with its whitespace runs collapsed (`split_whitespace().join(" ")`):
/// the non-whitespace characters of `s`, with one space before each that
/// follows whitespace, except before the first.
pub open spec fn collapse_ws(s: Seq<char>) -> Seq<char>
    decreases s.len(),
{
    if s.len() == 0 {
        Seq::empty()
    } else {
        let prev = collapse_ws(s.drop_last());
        let c = s.last();
        if text::is_white(c) {
            prev
        } else if s.len() >= 2 && text::is_white(s[s.len() - 2]) && prev.len() > 0 {
            prev.push(' ').push(c)
        } else {
            prev.push(c)
        }
    }
}

/// `s` capped at `n` characters, with `…` appended when it was longer.
pub open spec fn cap_chars(s: Seq<char>, n: nat) -> Seq<char> {
    if s.len() > n {
        s.take(n as int).push('\u{2026}')
    } else {
        s
    }
}

/// A cause made terse and single-line.
pub open spec fn terse(s: Seq<char>) -> Seq<char> {
    cap_chars(collapse_ws(s), 200)
}

/// Collapses all whitespace (newlines included) to single spaces and caps
/// the result at `MAX_CAUSE_LEN` characters, appending `…` when truncated.
pub fn collapse_and_truncate(s: &str) -> (r: String)
    ensures
        r@ == terse(s@),
{
    let v = text::chars_of(s);
    let mut out: Vec<char> = Vec::new();
    let mut i: usize = 0;
    while i < v.len()
        invariant
            i <= v.len(),
            v@ == s@,
            out@ == collapse_ws(v@.take(i as int)),
        decreases v.len() - i,
    {
        let ghost t = v@.take(i + 1);
        assert(t.drop_last() =~= v@.take(i as int));
        assert(t.last() == v@[i as int]);
        if i > 0 {
            assert(t[t.len() - 2] == v@[i - 1]);
        }
        let c = v[i];
        if !text::char_is_whitespace(c) {
            if i > 0 && text::char_is_whitespace(v[i - 1]) && out.len() > 0 {
                out.push(' ');
            }
            out.push(c);
        }
        i = i + 1;
    }
    assert(v@.take(v.len() as int) =~= v@);
    if out.len() > MAX_CAUSE_LEN {
        let capped = text::take_with_ellipsis(&out, MAX_CAUSE_LEN);
        text::string_from_chars(&capped)
    } else {
        text::string_from_chars(&out)
    }
}

/// Terse description of why the auxiliary queue-fields lookup failed:
/// the status of an API error, "not authenticated", or else the error's own
/// message — always made single-line and capped. `err` is the tool's error
/// when the failure is one, `display` the failure's message.
pub fn describe_aux_lookup_error(err: Option<&JrError>, display: &str) -> (r: String)
    ensures
        exists|t: Seq<char>| r@ == terse(t),
        match err {
            Some(JrError::ApiError { status, .. }) => r@ == terse(
                "API error ("@ + text::decimal(status as nat) + ")"@,
            ),
            Some(JrError::NotAuthenticated { .. }) => r@ == terse("not authenticated"@),
            Some(e) => error::message_of(*e) matches Some(m) ==> r@ == terse(m),
            None => r@ == terse(display@),
        },
{
    let cause = match err {
        Some(JrError::ApiError { status, .. }) => {
            let mut c = String::from_str("API error (");
            let code = text::u64_to_string(*status as u64);
            c.append(code.as_str());
            c.append(")");
            c
        },
        Some(JrError::NotAuthenticated { .. }) => String::from_str("not authenticated"),
        Some(e) => e.message(),
        None => text::owned(display),
    };
    collapse_and_truncate(cause.as_str())
}

proof fn lemma_collapse_has_no_other_whitespace(s: Seq<char>)
    ensures
        forall|i: int|
            0 <= i < collapse_ws(s).len() ==> (#[trigger] collapse_ws(s)[i] == ' '
                || !text::is_white(collapse_ws(s)[i])),
        collapse_ws(s).len() > 0 ==> !text::is_white(collapse_ws(s).last()),
    decreases s.len(),
{
    if s.len() > 0 {
        lemma_collapse_has_no_other_whitespace(s.drop_last());
    }
}

/// Law: a terse cause is one line: the only whitespace it holds is single
/// spaces (no newline, tab or carriage return), and it is at most 201
/// characters long.
pub proof fn law_terse_is_one_line(s: Seq<char>)
    ensures
        forall|i: int|
            0 <= i < terse(s).len() ==> (#[trigger] terse(s)[i] == ' ' || !text::is_white(
                terse(s)[i],
            )),
        terse(s).len() <= 201,
{
    lemma_collapse_has_no_other_whitespace(s);
    let c = collapse_ws(s);
    if c.len() > 200 {
        assert forall|i: int| 0 <= i < terse(s).len() implies (#[trigger] terse(s)[i] == ' '
            || !text::is_white(terse(s)[i])) by {
            if i < 200 {
                assert(terse(s)[i] == c[i]);
            } else {
                assert(terse(s)[i] == '\u{2026}');
            }
        }
    }
}

// ───────────────────────────── queue columns ─────────────────────────────

/// `s` is `customfield_` followed by one or more ASCII digits.
pub open spec fn is_customfield(s: Seq<char>) -> bool {
    &&& text::has_prefix(s, "customfield_"@)
    &&& s.len() > 12
    &&& forall|i: int| 12 <= i < s.len() ==> text::is_digit(#[trigger] s[i])
}

/// True iff `s` matches `^customfield_\d+$` exactly (anchored, one or more
/// ASCII digits, case-sensitive).
pub fn is_customfield_token(s: &str) -> (b: bool)
    ensures
        b == is_customfield(s@),
{
    proof {
        reveal_strlit("customfield_");
    }
    if !text::str_starts_with(s, "customfield_") {
        return false;
    }
    let v = text::chars_of(s);
    if v.len() <= 12 {
        return false;
    }
    let digits = text::all_digits_in(&v, 12, v.len());
    assert(digits == forall|i: int| 12 <= i < s@.len() ==> text::is_digit(#[trigger] s@[i])) by {
        if !digits {
            let j = choose|j: int|
                0 <= j < v@.len() - 12 && !text::is_digit(
                    #[trigger] v@.subrange(12, v@.len() as int)[j],
                );
            assert(v@.subrange(12, v@.len() as int)[j] == s@[j + 12]);
        } else {
            assert forall|i: int| 12 <= i < s@.len() implies text::is_digit(#[trigger] s@[i]) by {
                assert(v@.subrange(12, v@.len() as int)[i - 12] == s@[i]);
            }
        }
    }
    digits
}

/// The customfield tokens of `s`, each kept at its first occurrence.
pub open spec fn allow_list(s: Seq<Seq<char>>) -> Seq<Seq<char>>
    decreases s.len(),
{
    if s.len() == 0 {
        Seq::empty()
    } else {
        let prev = allow_list(s.drop_last());
        let t = s.last();
        if is_customfield(t) && !prev.contains(t) {
            prev.push(t)
        } else {
            prev
        }
    }
}

/// The views of a sequence of string slices.
pub open spec fn str_views(v: Seq<&str>) -> Seq<Seq<char>> {
    v.map_values(|s: &str| s@)
}

fn contains_str(v: &Vec<&str>, t: &str) -> (b: bool)
    ensures
        b == str_views(v@).contains(t@),
{
    let mut i: usize = 0;
    while i < v.len()
        invariant
            i <= v.len(),
            forall|j: int| 0 <= j < i ==> (#[trigger] v@[j])@ != t@,
        decreases v.len() - i,
    {
        if text::str_eq(v[i], t) {
            assert(str_views(v@)[i as int] == t@);
            return true;
        }
        i = i + 1;
    }
    assert forall|j: int| 0 <= j < str_views(v@).len() implies str_views(v@)[j] != t@ by {
        assert(str_views(v@)[j] == v@[j]@);
    }
    false
}

/// The queue's declared columns that are fetched: only tokens of the form
/// `customfield_<digits>`, each once, in first-seen order; none when the
/// queue declares none.
pub fn extra_fields_allow_list<'a>(fields: Option<&'a [String]>) -> (r: Vec<&'a str>)
    ensures
        str_views(r@) == match fields {
            Some(fs) => allow_list(text::views(fs@)),
            None => Seq::empty(),
        },
{
    let fs = match fields {
        Some(fs) => fs,
        None => {
            let r: Vec<&'a str> = Vec::new();
            assert(str_views(r@) =~= Seq::<Seq<char>>::empty());
            return r;
        },
    };
    let ghost all = text::views(fs@);
    let mut r: Vec<&'a str> = Vec::new();
    let mut i: usize = 0;
    assert(str_views(r@) =~= allow_list(all.take(0)));
    while i < fs.len()
        invariant
            i <= fs.len(),
            all == text::views(fs@),
            str_views(r@) == allow_list(all.take(i as int)),
        decreases fs.len() - i,
    {
        let ghost before = r@;
        assert(all.take(i + 1).drop_last() =~= all.take(i as int));
        assert(all.take(i + 1).last() == fs@[i as int]@);
        let t: &'a str = fs[i].as_str();
        if is_customfield_token(t) && !contains_str(&r, t) {
            r.push(t);
            assert(str_views(r@) =~= str_views(before).push(t@));
        }
        i = i + 1;
    }
    assert(all.take(fs.len() as int) =~= all);
    r
}

/// Law: the allow-list holds only `customfield_<digits>` tokens, each
/// once, and every such token of the declared fields is in it.
pub proof fn law_allow_list_is_distinct_customfields(s: Seq<Seq<char>>)
    ensures
        forall|i: int| 0 <= i < allow_list(s).len() ==> is_customfield(#[trigger] allow_list(s)[i]),
        forall|i: int, j: int|
            0 <= i < j < allow_list(s).len() ==> #[trigger] allow_list(s)[i] != #[trigger] allow_list(
                s,
            )[j],
        forall|k: int| 0 <= k < s.len() && is_customfield(#[trigger] s[k]) ==> allow_list(s).contains(
            s[k],
        ),
    decreases s.len(),
{
    if s.len() > 0 {
        law_allow_list_is_distinct_customfields(s.drop_last());
        let prev = allow_list(s.drop_last());
        assert forall|k: int| 0 <= k < s.len() && is_customfield(#[trigger] s[k]) implies allow_list(
            s,
        ).contains(s[k]) by {
            if k < s.len() - 1 {
                assert(s.drop_last()[k] == s[k]);
                let w = choose|w: int| 0 <= w < prev.len() && prev[w] == s[k];
                assert(allow_list(s)[w] == s[k]);
            } else if !prev.contains(s[k]) {
                assert(allow_list(s)[prev.len() as int] == s[k]);
            } else {
                let w = choose|w: int| 0 <= w < prev.len() && prev[w] == s[k];
                assert(allow_list(s)[w] == s[k]);
            }
        }
    }
}

// ───────────────────────────── fetching the issues ─────────────────────────────

/// The JQL `key IN (...)` clause for a list of issue keys (keys are JQL
/// identifiers and are not quoted).
pub fn build_key_in_jql(keys: &[String]) -> (r: String)
    ensures
        r@ == "key IN ("@ + text::join_seq(text::views(keys@), ", "@) + ")"@,
{
    let parts = text::clone_strings(keys);
    let joined = text::join(&parts, ", ");
    let mut r = String::from_str("key IN (");
    r.append(joined.as_str());
    r.append(")");
    r
}

// ───────────────────────────── resolving a queue by name ─────────────────────────────

/// The names of the queues, in order.
pub open spec fn queue_names(qs: Seq<Queue>) -> Seq<Seq<char>> {
    qs.map_values(|q: Queue| q.name@)
}

/// The ids of the queues whose name equals `name` up to case, in order.
pub open spec fn ids_named(qs: Seq<Queue>, name: Seq<char>) -> Seq<Seq<char>>
    decreases qs.len(),
{
    if qs.len() == 0 {
        Seq::empty()
    } else if text::lowercase_of(qs.last().name@) == text::lowercase_of(name) {
        ids_named(qs.drop_last(), name).push(qs.last().id@)
    } else {
        ids_named(qs.drop_last(), name)
    }
}

/// `k` is the first queue named exactly `n`.
pub open spec fn first_queue_named(qs: Seq<Queue>, n: Seq<char>, k: int) -> bool {
    &&& 0 <= k < qs.len()
    &&& qs[k].name@ == n
    &&& forall|j: int| 0 <= j < k ==> (#[trigger] qs[j]).name@ != n
}

/// `found` holds the id and declared fields of the first queue named `n`.
pub open spec fn found_queue(qs: Seq<Queue>, n: Seq<char>, found: (String, Option<Vec<String>>)) -> bool {
    exists|k: int|
        first_queue_named(qs, n, k) && found.0@ == qs[k].id@ && opt_views(found.1) == opt_views(
            qs[k].fields,
        )
}

/// Each name in double quotes.
pub open spec fn quoted_all(ms: Seq<Seq<char>>) -> Seq<Seq<char>> {
    ms.map_values(|m: Seq<char>| "\""@ + m + "\""@)
}

pub open spec fn multiple_queues_text(name: Seq<char>, ids: Seq<Seq<char>>) -> Seq<char> {
    "Multiple queues named \""@ + name + "\" found (IDs: "@ + text::join_seq(ids, ", "@)
        + "). Use --id "@ + ids[0] + " to specify."@
}

pub open spec fn ambiguous_queues_text(name: Seq<char>, ms: Seq<Seq<char>>) -> Seq<char> {
    "\""@ + name + "\" matches multiple queues: "@ + text::join_seq(quoted_all(ms), ", "@)
        + ". Be more specific or use --id."@
}

pub open spec fn no_queue_text(name: Seq<char>) -> Seq<char> {
    "No queue matching \""@ + name + "\" found. Run \"jr queue list\" to see available queues."@
}

/// The views of an optional list of strings.
pub open spec fn opt_views(o: Option<Vec<String>>) -> Option<Seq<Seq<char>>> {
    match o {
        Some(v) => Some(text::views(v@)),
        None => None,
    }
}

proof fn lemma_ids_named_len(qs: Seq<Queue>, name: Seq<char>)
    ensures
        ids_named(qs, name).len() == partial_match::exact_matches(name, queue_names(qs)).len(),
    decreases qs.len(),
{
    if qs.len() > 0 {
        lemma_ids_named_len(qs.drop_last(), name);
        assert(queue_names(qs).drop_last() =~= queue_names(qs.drop_last()));
    }
}

fn copy_fields(o: &Option<Vec<String>>) -> (r: Option<Vec<String>>)
    ensures
        opt_views(r) == opt_views(*o),
{
    match o {
        Some(v) => Some(text::clone_strings(v.as_slice())),
        None => None,
    }
}

/// The queue a name designates, among the queues of a service desk: its
/// id and declared fields. Only a case-insensitive exact match resolves;
/// several queues of that name, substring hits, and no hit are user errors
/// (exit 64) that say what to do.
pub fn resolve_queue_by_name(queues: &[Queue], name: &str) -> (r: Result<
    (String, Option<Vec<String>>),
    JrError,
>)
    ensures
        match partial_match::exact_only_outcome(name@, queue_names(queues@)) {
            partial_match::MatchView::Exact(n) => r matches Ok(found) && found_queue(
                queues@,
                n,
                found,
            ),
            partial_match::MatchView::ExactMultiple(_) => r matches Err(JrError::UserError(m))
                && m@ == multiple_queues_text(name@, ids_named(queues@, name@)),
            partial_match::MatchView::Ambiguous(ms) => r matches Err(JrError::UserError(m)) && m@
                == ambiguous_queues_text(name@, ms),
            partial_match::MatchView::NoMatch(_) => r matches Err(JrError::UserError(m)) && m@
                == no_queue_text(name@),
        },
{
    let ghost qs = queues@;
    let ghost all = queue_names(qs);
    let mut names: Vec<String> = Vec::new();
    let mut i: usize = 0;
    while i < queues.len()
        invariant
            i <= queues.len(),
            qs == queues@,
            names@.len() == i,
            forall|j: int| 0 <= j < i ==> (#[trigger] names@[j])@ == qs[j].name@,
        decreases queues.len() - i,
    {
        names.push(queues[i].name.clone());
        i = i + 1;
    }
    assert(text::views(names@) =~= all);
    proof {
        partial_match::law_reported_names_are_candidates(name@, all);
    }
    let outcome = partial_match::partial_match_exact_only(name, names.as_slice());
    match outcome {
        MatchResult::Exact(matched) => {
            let ghost n = matched@;
            assert(partial_match::exact_only_outcome(name@, all) == partial_match::MatchView::Exact(n));
            let ghost w = choose|w: int| 0 <= w < all.len() && all[w] == n;
            let mut k: usize = 0;
            while k < queues.len()
                invariant
                    k <= queues.len(),
                    qs == queues@,
                    0 <= w < qs.len(),
                    qs[w].name@ == n,
                    matched@ == n,
                    all == queue_names(qs),
                    partial_match::exact_only_outcome(name@, all) == partial_match::MatchView::Exact(n),
                    forall|j: int| 0 <= j < k ==> (#[trigger] qs[j]).name@ != n,
                decreases queues.len() - k,
            {
                if queues[k].name == matched {
                    assert(first_queue_named(qs, n, k as int));
                    let id = queues[k].id.clone();
                    let fields = copy_fields(&queues[k].fields);
                    assert(id@ == qs[k as int].id@);
                    assert(opt_views(fields) == opt_views(qs[k as int].fields));
                    let found = (id, fields);
                    assert(found_queue(qs, n, found));
                    return Ok(found);
                }
                k = k + 1;
            }
            assert(qs[w].name@ != n);
            Err(JrError::Internal(matched))
        },
        MatchResult::ExactMultiple(_) => {
            let lq = text::lowercase(name);
            let mut ids: Vec<String> = Vec::new();
            let mut j: usize = 0;
            while j < queues.len()
                invariant
                    j <= queues.len(),
                    qs == queues@,
                    lq@ == text::lowercase_of(name@),
                    text::views(ids@) == ids_named(qs.take(j as int), name@),
                decreases queues.len() - j,
            {
                let ghost before = ids@;
                assert(qs.take(j + 1).drop_last() =~= qs.take(j as int));
                let ln = text::lowercase(queues[j].name.as_str());
                if text::str_eq(ln.as_str(), lq.as_str()) {
                    ids.push(queues[j].id.clone());
                    assert(text::views(ids@) =~= text::views(before).push(qs[j as int].id@));
                }
                j = j + 1;
            }
            assert(qs.take(queues.len() as int) =~= qs);
            proof {
                lemma_ids_named_len(qs, name@);
            }
            let joined = text::join(&ids, ", ");
            let mut m = String::from_str("Multiple queues named \"");
            m.append(name);
            m.append("\" found (IDs: ");
            m.append(joined.as_str());
            m.append("). Use --id ");
            m.append(ids[0].as_str());
            m.append(" to specify.");
            Err(JrError::UserError(m))
        },
        MatchResult::Ambiguous(matches) => {
            let mut quoted: Vec<String> = Vec::new();
            let mut j: usize = 0;
            while j < matches.len()
                invariant
                    j <= matches.len(),
                    text::views(quoted@) == quoted_all(text::views(matches@)).take(j as int),
                decreases matches.len() - j,
            {
                let ghost before = quoted@;
                let mut q = String::from_str("\"");
                q.append(matches[j].as_str());
                q.append("\"");
                assert(quoted_all(text::views(matches@))[j as int] == q@);
                let ghost qv = q@;
                quoted.push(q);
                assert(text::views(quoted@) =~= text::views(before).push(qv));
                assert(quoted_all(text::views(matches@)).take(j + 1) =~= quoted_all(
                    text::views(matches@),
                ).take(j as int).push(qv));
                j = j + 1;
            }
            assert(quoted_all(text::views(matches@)).take(matches.len() as int) =~= quoted_all(
                text::views(matches@),
            ));
            let joined = text::join(&quoted, ", ");
            let mut m = String::from_str("\"");
            m.append(name);
            m.append("\" matches multiple queues: ");
            m.append(joined.as_str());
            m.append(". Be more specific or use --id.");
            Err(JrError::UserError(m))
        },
        MatchResult::NoMatch(_) => {
            let mut m = String::from_str("No queue matching \"");
            m.append(name);
            m.append("\" found. Run \"jr queue list\" to see available queues.");
            Err(JrError::UserError(m))
        },
    }
}

// ───────────────────────────── ordering the issues ─────────────────────────────

/// The position of key `k` in the queue: its last index among `keys`, or
/// `usize::MAX` when the queue does not list it.
pub open spec fn queue_position(keys: Seq<Seq<char>>, k: Seq<char>) -> int
    decreases keys.len(),
{
    if keys.len() == 0 {
        usize::MAX as int
    } else if keys.last() == k {
        keys.len() - 1
    } else {
        queue_position(keys.drop_last(), k)
    }
}

/// `(p1, i1)` comes strictly before `(p2, i2)` in lexicographic order.
pub open spec fn lex_before(p1: int, i1: int, p2: int, i2: int) -> bool {
    p1 < p2 || (p1 == p2 && i1 < i2)
}

/// `result` is `issues` stably sorted by queue position: `perm` maps each
/// place of `result` to the index in `issues` it came from, every index
/// is used, and the (position, index) pairs increase strictly.
pub open spec fn stable_sorted_by_position(
    issues: Seq<Issue>,
    keys: Seq<Seq<char>>,
    result: Seq<Issue>,
    perm: Seq<int>,
) -> bool {
    &&& result.len() == issues.len()
    &&& perm.len() == issues.len()
    &&& forall|t: int| 0 <= t < perm.len() ==> 0 <= #[trigger] perm[t] < issues.len()
    &&& forall|t: int| 0 <= t < perm.len() ==> result[t] == issues[#[trigger] perm[t]]
    &&& forall|a: int, b: int|
        0 <= a < b < perm.len() ==> lex_before(
            queue_position(keys, issues[#[trigger] perm[a]].key@),
            perm[a],
            queue_position(keys, issues[#[trigger] perm[b]].key@),
            perm[b],
        )
}

fn position_in(keys: &[String], k: &str) -> (p: usize)
    ensures
        p == queue_position(text::views(keys@), k@),
{
    let ghost ks = text::views(keys@);
    let mut t: usize = keys.len();
    assert(ks.take(t as int) =~= ks);
    while t > 0
        invariant
            t <= keys.len(),
            ks == text::views(keys@),
            queue_position(ks, k@) == queue_position(ks.take(t as int), k@),
        decreases t,
    {
        assert(ks.take(t as int).last() == keys@[t - 1]@);
        assert(ks.take(t as int).drop_last() =~= ks.take(t - 1));
        if text::str_eq(keys[t - 1].as_str(), k) {
            return t - 1;
        }
        t = t - 1;
    }
    usize::MAX
}

/// Re-order issues to match the queue's key order (the search that fetched
/// them does not keep it). Issues of equal position — a key the queue does
/// not list comes last — keep their relative order; queue keys with no
/// issue are simply absent.
pub fn reorder_by_queue_position(issues: Vec<Issue>, queue_keys: &[String]) -> (r: Vec<Issue>)
    ensures
        exists|perm: Seq<int>|
            stable_sorted_by_position(issues@, text::views(queue_keys@), r@, perm),
{
    let ghost orig = issues@;
    let ghost keys = text::views(queue_keys@);
    let n = issues.len();
    let mut rest = issues;
    let mut out: Vec<Issue> = Vec::new();
    let mut out_pos: Vec<usize> = Vec::new();
    let ghost mut idx: Seq<int> = Seq::empty();
    let mut i: usize = 0;
    while i < n
        invariant
            i <= n == orig.len(),
            rest@ == orig.skip(i as int),
            out@.len() == i,
            out_pos@.len() == i,
            idx.len() == i,
            keys == text::views(queue_keys@),
            forall|t: int| 0 <= t < i ==> 0 <= #[trigger] idx[t] < i,
            forall|t: int| 0 <= t < i ==> out@[t] == orig[#[trigger] idx[t]],
            forall|t: int|
                0 <= t < i ==> out_pos@[t] == queue_position(keys, orig[#[trigger] idx[t]].key@),
            forall|a: int, b: int|
                0 <= a < b < i ==> lex_before(
                    queue_position(keys, orig[#[trigger] idx[a]].key@),
                    idx[a],
                    queue_position(keys, orig[#[trigger] idx[b]].key@),
                    idx[b],
                ),
        decreases n - i,
    {
        assert(rest@[0] == orig[i as int]);
        let x = rest.remove(0);
        assert(rest@ =~= orig.skip(i + 1));
        let p = position_in(queue_keys, x.key.as_str());
        // The insertion point: after every issue of position at most `p`.
        let mut j: usize = 0;
        while j < out_pos.len() && out_pos[j] <= p
            invariant
                j <= out_pos@.len() == i,
                forall|t: int| 0 <= t < j ==> out_pos@[t] <= p,
            decreases out_pos@.len() - j,
        {
            j = j + 1;
        }
        proof {
            // Everything from `j` on has a position greater than `p`.
            assert forall|t: int| j <= t < i implies out_pos@[t] > p by {
                if j < i {
                    if t > j {
                        assert(lex_before(
                            queue_position(keys, orig[idx[j as int]].key@),
                            idx[j as int],
                            queue_position(keys, orig[idx[t]].key@),
                            idx[t],
                        ));
                    }
                }
            }
        }
        let ghost old_idx = idx;
        let ghost old_out = out@;
        let ghost old_pos = out_pos@;
        out.insert(j, x);
        out_pos.insert(j, p);
        proof {
            idx = old_idx.insert(j as int, i as int);
            assert forall|t: int| 0 <= t < i + 1 implies out@[t] == orig[#[trigger] idx[t]] by {
                if t < j {
                    assert(out@[t] == old_out[t]);
                } else if t > j {
                    assert(out@[t] == old_out[t - 1]);
                }
            }
            assert forall|t: int|
                0 <= t < i + 1 implies out_pos@[t] == queue_position(
                keys,
                orig[#[trigger] idx[t]].key@,
            ) by {
                if t < j {
                    assert(out_pos@[t] == old_pos[t]);
                } else if t > j {
                    assert(out_pos@[t] == old_pos[t - 1]);
                }
            }
            assert forall|a: int, b: int|
                0 <= a < b < i + 1 implies lex_before(
                queue_position(keys, orig[#[trigger] idx[a]].key@),
                idx[a],
                queue_position(keys, orig[#[trigger] idx[b]].key@),
                idx[b],
            ) by {
                if a < j && b < j {
                    assert(lex_before(
                        queue_position(keys, orig[old_idx[a]].key@),
                        old_idx[a],
                        queue_position(keys, orig[old_idx[b]].key@),
                        old_idx[b],
                    ));
                } else if a < j && b == j {
                    assert(old_pos[a] <= p);
                } else if a < j && b > j {
                    assert(lex_before(
                        queue_position(keys, orig[old_idx[a]].key@),
                        old_idx[a],
                        queue_position(keys, orig[old_idx[b - 1]].key@),
                        old_idx[b - 1],
                    ));
                } else if a == j {
                    assert(old_pos[b - 1] > p);
                } else {
                    assert(lex_before(
                        queue_position(keys, orig[old_idx[a - 1]].key@),
                        old_idx[a - 1],
                        queue_position(keys, orig[old_idx[b - 1]].key@),
                        old_idx[b - 1],
                    ));
                }
            }
        }
        i = i + 1;
    }
    assert(stable_sorted_by_position(orig, keys, out@, idx));
    out
}

// ───────────────────────────── listing queues ─────────────────────────────

/// A queue's list row: its name and its issue count (a dash when unknown).
pub open spec fn queue_row(q: Queue) -> Seq<Seq<char>> {
    seq![
        q.name@,
        match q.issue_count { Some(c) => text::decimal(c as nat), None => "\u{2014}"@ },
    ]
}

/// The rows of `queue list`, one per queue, in order.
pub fn queue_rows(queues: &[Queue]) -> (r: Vec<Vec<String>>)
    ensures
        r@.len() == queues@.len(),
        forall|i: int| 0 <= i < queues@.len() ==> text::views(#[trigger] r@[i]@) == queue_row(queues@[i]),
{
    let mut rows: Vec<Vec<String>> = Vec::new();
    let mut i: usize = 0;
    while i < queues.len()
        invariant
            i <= queues@.len(),
            rows@.len() == i,
            forall|j: int| 0 <= j < i ==> text::views(#[trigger] rows@[j]@) == queue_row(queues@[j]),
        decreases queues@.len() - i,
    {
        let q = &queues[i];
        let mut row: Vec<String> = Vec::new();
        row.push(q.name.clone());
        row.push(
            match q.issue_count {
                Some(c) => text::u64_to_string(c),
                None => String::from_str("\u{2014}"),
            },
        );
        assert(text::views(row@) =~= queue_row(queues@[i as int]));
        rows.push(row);
        i = i + 1;
    }
    rows
}

} // verus!

//! JQL helpers: quoting values into string literals, checking relative-date
//! durations, date filter clauses, and dropping an `ORDER BY` clause.
use vstd::prelude::*;
use vstd::string::StringSliceAdditionalSpecFns;

use crate::text;

verus! {

// ───────────────────────────── escaping ─────────────────────────────

/// What one character becomes inside a JQL double-quoted literal: a
/// backslash and a double quote are each preceded by a backslash.
pub open spec fn escape_char(c: char) -> Seq<char> {
    if c == '\\' {
        seq!['\\', '\\']
    } else if c == '"' {
        seq!['\\', '"']
    } else {
        seq![c]
    }
}

/// `s` with every character escaped by `escape_char`, in order.
pub open spec fn escaped(s: Seq<char>) -> Seq<char>
    decreases s.len(),
{
    if s.len() == 0 {
        Seq::empty()
    } else {
        escaped(s.drop_last()) + escape_char(s.last())
    }
}

/// Escape a value for interpolation into a JQL double-quoted string literal.
///
/// Backslashes are escaped as well as double quotes, so a backslash in the
/// input can never neutralise the escape of a following quote.
pub fn escape_value(s: &str) -> (r: String)
    ensures
        r@ == escaped(s@),
{
    let v = text::chars_of(s);
    let mut out: Vec<char> = Vec::new();
    let mut i: usize = 0;
    while i < v.len()
        invariant
            i <= v.len(),
            out@ == escaped(v@.take(i as int)),
        decreases v.len() - i,
    {
        let c = v[i];
        if c == '\\' {
            out.push('\\');
            out.push('\\');
        } else if c == '"' {
            out.push('\\');
            out.push('"');
        } else {
            out.push(c);
        }
        i = i + 1;
        assert(v@.take(i as int).drop_last() =~= v@.take(i - 1));
        assert(out@ =~= escaped(v@.take(i as int)));
    }
    assert(v@.take(v.len() as int) =~= v@);
    text::string_from_chars(&out)
}

/// The number of consecutive backslashes immediately before index `i`.
pub open spec fn backslashes_before(s: Seq<char>, i: int) -> nat
    decreases i,
{
    if i <= 0 || i > s.len() {
        0
    } else if s[i - 1] == '\\' {
        backslashes_before(s, i - 1) + 1
    } else {
        0
    }
}

/// Some double quote in `s` is preceded by an even number of backslashes,
/// so it would end a JQL string literal.
pub open spec fn has_unescaped_quote(s: Seq<char>) -> bool {
    exists|i: int| 0 <= i < s.len() && s[i] == '"' && backslashes_before(s, i) % 2 == 0
}

proof fn lemma_backslashes_before_prefix(a: Seq<char>, b: Seq<char>, i: int)
    requires
        0 <= i <= a.len(),
    ensures
        backslashes_before(a + b, i) == backslashes_before(a, i),
    decreases i,
{
    if i > 0 {
        lemma_backslashes_before_prefix(a, b, i - 1);
        assert((a + b)[i - 1] == a[i - 1]);
    }
}

proof fn lemma_escaped_quotes(s: Seq<char>)
    ensures
        backslashes_before(escaped(s), escaped(s).len() as int) % 2 == 0,
        forall|i: int|
            0 <= i < escaped(s).len() && #[trigger] escaped(s)[i] == '"' ==> backslashes_before(
                escaped(s),
                i,
            ) % 2 == 1,
    decreases s.len(),
{
    if s.len() > 0 {
        let p = escaped(s.drop_last());
        let c = s.last();
        let e = escape_char(c);
        let t = escaped(s);
        lemma_escaped_quotes(s.drop_last());
        assert(t == p + e);
        let n = p.len() as int;
        lemma_backslashes_before_prefix(p, e, n);
        assert forall|i: int| 0 <= i < n implies backslashes_before(t, i) == backslashes_before(
            p,
            i,
        ) by {
            lemma_backslashes_before_prefix(p, e, i);
        }
        assert forall|i: int| 0 <= i < n implies t[i] == p[i] by {}
        if c == '\\' {
            assert(t[n] == '\\' && t[n + 1] == '\\');
            assert(backslashes_before(t, n + 1) == backslashes_before(t, n) + 1);
            assert(backslashes_before(t, n + 2) == backslashes_before(t, n + 1) + 1);
        } else if c == '"' {
            assert(t[n] == '\\' && t[n + 1] == '"');
            assert(backslashes_before(t, n + 1) == backslashes_before(t, n) + 1);
            assert(backslashes_before(t, n + 2) == 0);
        } else {
            assert(t[n] == c);
            assert(backslashes_before(t, n + 1) == 0);
        }
        assert forall|i: int| 0 <= i < t.len() && t[i] == '"' implies backslashes_before(t, i) % 2
            == 1 by {
            if i < n {
                assert(p[i] == '"');
            }
        }
    }
}

/// Law: an escaped value never holds a double quote that would end the
/// enclosing JQL string literal — every quote in it is preceded by an odd
/// number of backslashes.
pub proof fn law_escaped_value_has_no_unescaped_quote(s: Seq<char>)
    ensures
        !has_unescaped_quote(escaped(s)),
{
    lemma_escaped_quotes(s);
}

/// Reading a JQL literal's text back, left to right: `\\` stands for `\`
/// and `\"` for `"`; any other character stands for itself.
pub open spec fn unescaped(t: Seq<char>) -> Seq<char>
    decreases t.len(),
{
    if t.len() == 0 {
        Seq::empty()
    } else if t.len() >= 2 && t[0] == '\\' && (t[1] == '\\' || t[1] == '"') {
        seq![t[1]] + unescaped(t.skip(2))
    } else {
        seq![t[0]] + unescaped(t.drop_first())
    }
}

proof fn lemma_escaped_concat(a: Seq<char>, b: Seq<char>)
    ensures
        escaped(a + b) == escaped(a) + escaped(b),
    decreases b.len(),
{
    if b.len() == 0 {
        assert(a + b =~= a);
        assert(escaped(a) + escaped(b) =~= escaped(a));
    } else {
        assert((a + b).drop_last() =~= a + b.drop_last());
        assert((a + b).last() == b.last());
        lemma_escaped_concat(a, b.drop_last());
        assert(escaped(a + b) =~= escaped(a) + escaped(b));
    }
}

/// Law: reading an escaped value back gives the value: escaping loses
/// nothing and adds nothing.
pub proof fn law_escape_round_trip(s: Seq<char>)
    ensures
        unescaped(escaped(s)) == s,
    decreases s.len(),
{
    if s.len() > 0 {
        let c = s[0];
        let tail = s.drop_first();
        assert(s =~= seq![c] + tail);
        lemma_escaped_concat(seq![c], tail);
        assert(seq![c].drop_last() =~= Seq::<char>::empty());
        assert(seq![c].last() == c);
        assert(escaped(Seq::<char>::empty()) == Seq::<char>::empty());
        assert(escaped(seq![c]) == escaped(Seq::<char>::empty()) + escape_char(c));
        assert(escaped(seq![c]) =~= escape_char(c));
        let t = escaped(s);
        assert(t == escape_char(c) + escaped(tail));
        law_escape_round_trip(tail);
        if c == '\\' || c == '"' {
            assert(t[0] == '\\' && t[1] == c);
            assert(t.skip(2) =~= escaped(tail));
        } else {
            assert(t[0] == c);
            assert(t.drop_first() =~= escaped(tail));
        }
        assert(unescaped(t) =~= s);
    }
}

// ───────────────────────────── relative durations ─────────────────────────────

/// The units of a JQL relative date: `y`, `M`, `w`, `d`, `h`, `m`.
pub open spec fn is_jql_unit(c: char) -> bool {
    c == 'y' || c == 'M' || c == 'w' || c == 'd' || c == 'h' || c == 'm'
}

/// A JQL relative date duration: one or more ASCII digits followed by one
/// unit character (combined units such as `4w2d` are not JQL).
pub open spec fn is_jql_duration(s: Seq<char>) -> bool {
    &&& s.len() >= 2
    &&& text::all_digits(s.drop_last())
    &&& is_jql_unit(s.last())
}

/// The message of every rejection by `validate_duration`.
pub open spec fn invalid_duration_message(s: Seq<char>) -> Seq<char> {
    "Invalid duration '"@ + s + "'. Use a number followed by y, M, w, d, h, or m (e.g., 7d, 4w, 2M)."@
}

/// Validate a JQL relative date duration string such as `7d`, `4w` or `2M`.
///
/// Units are case-sensitive (`M` is months, `m` is minutes).
pub fn validate_duration(s: &str) -> (r: Result<(), String>)
    ensures
        r is Ok <==> is_jql_duration(s@),
        r matches Err(m) ==> m@ == invalid_duration_message(s@),
{
    let mut msg = String::from_str("Invalid duration '");
    msg.append(s);
    msg.append("'. Use a number followed by y, M, w, d, h, or m (e.g., 7d, 4w, 2M).");
    let v = text::chars_of(s);
    if v.len() < 2 {
        return Err(msg);
    }
    let n = v.len();
    if n - 1 == 0 || !text::all_digits_in(&v, 0, n - 1) {
        proof {
            assert(v@.subrange(0, n - 1) =~= s@.drop_last());
        }
        return Err(msg);
    }
    let unit = v[n - 1];
    if !(unit == 'y' || unit == 'M' || unit == 'w' || unit == 'd' || unit == 'h' || unit == 'm') {
        return Err(msg);
    }
    proof {
        assert(v@.subrange(0, n - 1) =~= s@.drop_last());
    }
    Ok(())
}

// ───────────────────────────── date filters ─────────────────────────────

/// A `YYYY-MM-DD` date as chrono's `NaiveDate` reads it and writes it back;
/// `None` when it is no such date.
pub uninterp spec fn canonical_date_of(date: Seq<char>) -> Option<Seq<char>>;

/// The day after a `YYYY-MM-DD` date, written the same way, as chrono's
/// `NaiveDate` computes it; `None` when the text is no such date or the day
/// after is out of chrono's range.
pub uninterp spec fn next_day_of(date: Seq<char>) -> Option<Seq<char>>;

/// A date read and written back by chrono.
///
/// Trusted: parses with `NaiveDate`'s `FromStr` (`%Y-%m-%d`) and formats
/// with its `Display`; the contract names the result `canonical_date_of`
/// of the text (it depends on the characters alone).
#[verifier::external_body]
fn canonical_date(date: &str) -> (r: Option<String>)
    ensures
        match r {
            Some(d) => canonical_date_of(date@) == Some(d@),
            None => canonical_date_of(date@) is None,
        },
{
    date.parse::<chrono::NaiveDate>().ok().map(|d| d.to_string())
}

/// The day after a date, by chrono.
///
/// Trusted: parses with `NaiveDate`'s `FromStr`, adds one day with
/// `checked_add_days(Days::new(1))` and formats with `Display`; the
/// contract names the result `next_day_of` of the text.
#[verifier::external_body]
fn next_day(date: &str) -> (r: Option<String>)
    ensures
        match r {
            Some(d) => next_day_of(date@) == Some(d@),
            None => next_day_of(date@) is None,
        },
{
    date.parse::<chrono::NaiveDate>().ok().and_then(|d| d.checked_add_days(chrono::Days::new(1))).map(
        |d| d.to_string(),
    )
}

/// `FIELD >= "DATE"`.
pub open spec fn on_or_after_text(field: Seq<char>, date: Seq<char>) -> Seq<char> {
    field + " >= \""@ + date + "\""@
}

/// `FIELD < "DATE"`.
pub open spec fn before_text(field: Seq<char>, date: Seq<char>) -> Seq<char> {
    field + " < \""@ + date + "\""@
}

/// The clause of an `--…-after` date filter for a date already read:
/// `FIELD >= "DATE"`.
pub fn on_or_after_clause_from(field: &str, date: &str) -> (r: String)
    ensures
        r@ == on_or_after_text(field@, date@),
{
    let mut r = text::owned(field);
    r.append(" >= \"");
    r.append(date);
    r.append("\"");
    r
}

/// The clause of an `--…-before` date filter, given the day after the
/// date: everything strictly before that day, `FIELD < "NEXT_DAY"`, so that
/// the date itself is included.
pub fn before_clause_from(field: &str, next_day: &str) -> (r: String)
    ensures
        r@ == before_text(field@, next_day@),
{
    let mut r = text::owned(field);
    r.append(" < \"");
    r.append(next_day);
    r.append("\"");
    r
}

/// The clause of `--created-after` / `--updated-after`: on or after the
/// date (`None` when the text is no date).
pub fn date_after_clause(field: &str, date: &str) -> (r: Option<String>)
    ensures
        match canonical_date_of(date@) {
            Some(d) => r matches Some(c) && c@ == on_or_after_text(field@, d),
            None => r is None,
        },
{
    match canonical_date(date) {
        Some(d) => Some(on_or_after_clause_from(field, d.as_str())),
        None => None,
    }
}

/// The clause of `--created-before` / `--updated-before`: before the day
/// after the date, so the date itself is included (`None` when the text is
/// no date, or has no day after).
pub fn date_before_clause(field: &str, date: &str) -> (r: Option<String>)
    ensures
        match next_day_of(date@) {
            Some(d) => r matches Some(c) && c@ == before_text(field@, d),
            None => r is None,
        },
{
    match next_day(date) {
        Some(d) => Some(before_clause_from(field, d.as_str())),
        None => None,
    }
}

// ───────────────────────────── ORDER BY ─────────────────────────────

/// The JQL with its `ORDER BY` clause removed: everything before the first
/// ` ORDER BY` (found ASCII-case-insensitively), without trailing
/// whitespace; empty when the query itself starts with `ORDER BY`; the query
/// unchanged otherwise.
pub open spec fn order_by_stripped(s: Seq<char>) -> Seq<char> {
    let u = text::upper_seq(s);
    match text::first_occurrence(u, " ORDER BY"@) {
        Some(k) => text::trim_end(s.take(k)),
        None => if text::has_prefix(u, "ORDER BY"@) {
            Seq::empty()
        } else {
            s
        },
    }
}

/// Strip the `ORDER BY` clause from JQL for use with count-only endpoints.
pub fn strip_order_by(jql: &str) -> (r: &str)
    ensures
        r@ == order_by_stripped(jql@),
{
    let v = text::chars_of(jql);
    let u = text::upper_chars(&v);
    let pat = text::chars_of(" ORDER BY");
    match text::find_first(&u, &pat) {
        Some(pos) => {
            proof {
                text::lemma_first_occurrence_from(u@, pat@, 0);
            }
            let k = text::trim_end_len(&v, pos);
            jql.substring_char(0, k)
        },
        None => {
            let head = text::chars_of("ORDER BY");
            if text::starts_with_chars(&u, &head) {
                let e = "";
                proof {
                    reveal_strlit("");
                }
                e
            } else {
                jql
            }
        },
    }
}

} // verus!

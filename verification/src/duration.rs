//! Worklog durations: checking the syntax a user types (`1w2d3h30m`,
//! `2d 3h 30m`) and rendering a number of seconds as hours and minutes.
use vstd::prelude::*;
use vstd::string::StringSliceAdditionalSpecFns;

use crate::error::JrError;
use crate::text;

verus! {

/// Maximum byte length accepted by `parse_duration_validate`.
pub const MAX_DURATION_INPUT_LEN: usize = 64;

/// The units a worklog duration may use: weeks, days, hours, minutes.
pub open spec fn is_worklog_unit(c: char) -> bool {
    c == 'w' || c == 'd' || c == 'h' || c == 'm'
}

/// The usage hint that ends most duration errors.
pub open spec fn usage_hint() -> Seq<char> {
    "Use format: Nw Nd Nh Nm (e.g. 2h, 1d, 2d 3h 30m)"@
}

/// The error for an input of `n` bytes, over the cap.
pub open spec fn too_long_message(n: nat) -> Seq<char> {
    "Duration string too long ("@ + text::decimal(n)
        + " bytes; max 64). Use format: Nw Nd Nh Nm (e.g., 1w2d3h30m, 2d 3h, 30m)."@
}

/// The error for an input that is empty or only whitespace.
pub open spec fn empty_message() -> Seq<char> {
    "Duration cannot be empty. Use format: Nw Nd Nh Nm (e.g. 2h, 1d, 2d 3h 30m)"@
}

/// The error for a unit letter that no number precedes.
pub open spec fn unit_before_number_message(input: Seq<char>) -> Seq<char> {
    "Invalid duration \""@ + input + "\": a unit letter appeared before any number. "@
        + usage_hint()
}

/// The error for a letter that is not a unit.
pub open spec fn unknown_unit_message(c: char, input: Seq<char>) -> Seq<char> {
    "Unknown duration unit '"@ + seq![c] + "' in \""@ + input + "\". "@ + usage_hint()
}

/// The error for trailing digits with no unit.
pub open spec fn number_without_unit_message(input: Seq<char>) -> Seq<char> {
    "Invalid duration \""@ + input + "\": number without unit. "@ + usage_hint()
}

/// The error for an input with no unit at all.
pub open spec fn no_unit_message(input: Seq<char>) -> Seq<char> {
    "Invalid duration \""@ + input + "\". "@ + usage_hint()
}

/// Scanning the normalised text `l` left to right, with `pending` telling
/// whether digits have been read since the last unit and `found` whether a
/// unit has been read: the first problem met, or `None` when the text is a
/// sequence of numbers each followed by a unit.
pub open spec fn scan_problem(l: Seq<char>, pending: bool, found: bool, input: Seq<char>) -> Option<
    Seq<char>,
>
    decreases l.len(),
{
    if l.len() == 0 {
        if pending {
            Some(number_without_unit_message(input))
        } else if !found {
            Some(no_unit_message(input))
        } else {
            None
        }
    } else if text::is_digit(l[0]) {
        scan_problem(l.drop_first(), true, found, input)
    } else if !pending {
        Some(unit_before_number_message(input))
    } else if !is_worklog_unit(l[0]) {
        Some(unknown_unit_message(l[0], input))
    } else {
        scan_problem(l.drop_first(), false, true, input)
    }
}

/// `l` is one or more numbers, each followed by a unit letter
/// (`([0-9]+[wdhm])+`): it is not empty, it ends with a unit letter, and
/// every character is a digit or a unit letter that follows a digit.
pub open spec fn numbers_with_units(l: Seq<char>) -> bool {
    &&& l.len() > 0
    &&& is_worklog_unit(l.last())
    &&& forall|i: int|
        0 <= i < l.len() ==> text::is_digit(#[trigger] l[i]) || (is_worklog_unit(l[i]) && i > 0
            && text::is_digit(l[i - 1]))
}

/// A unit letter in either case (`w`, `d`, `h`, `m`, `W`, `D`, `H`, `M`):
/// one whose ASCII lower-case form is a unit letter.
pub open spec fn is_unit_any_case(c: char) -> bool {
    is_worklog_unit(text::lower_char(c))
}

/// `l` is one or more numbers, each followed by a unit letter in either
/// case (`([0-9]+[wdhmWDHM])+`).
pub open spec fn numbers_with_units_any_case(l: Seq<char>) -> bool {
    &&& l.len() > 0
    &&& is_unit_any_case(l.last())
    &&& forall|i: int|
        0 <= i < l.len() ==> text::is_digit(#[trigger] l[i]) || (is_unit_any_case(l[i]) && i > 0
            && text::is_digit(l[i - 1]))
}

/// The scan's verdict on a non-empty rest `l`, reached with `pending`
/// telling whether digits were just read.
spec fn scan_accepts(l: Seq<char>, pending: bool) -> bool {
    &&& is_worklog_unit(l.last())
    &&& forall|i: int|
        0 <= i < l.len() ==> text::is_digit(#[trigger] l[i]) || (is_worklog_unit(l[i]) && (if i
            == 0 {
            pending
        } else {
            text::is_digit(l[i - 1])
        }))
}

proof fn lemma_scan(l: Seq<char>, pending: bool, found: bool, input: Seq<char>)
    ensures
        scan_problem(l, pending, found, input) is None <==> (if l.len() == 0 {
            !pending && found
        } else {
            scan_accepts(l, pending)
        }),
    decreases l.len(),
{
    if l.len() > 0 {
        let c = l[0];
        let rest = l.drop_first();
        if text::is_digit(c) {
            lemma_scan(rest, true, found, input);
            if rest.len() == 0 {
                assert(l.last() == c);
            } else {
                assert(rest.last() == l.last());
                assert(scan_accepts(rest, true) <==> scan_accepts(l, pending)) by {
                    if scan_accepts(rest, true) {
                        assert forall|i: int| 0 <= i < l.len() implies text::is_digit(
                            #[trigger] l[i],
                        ) || (is_worklog_unit(l[i]) && (if i == 0 {
                            pending
                        } else {
                            text::is_digit(l[i - 1])
                        })) by {
                            if i > 0 {
                                assert(l[i] == rest[i - 1]);
                                if i > 1 {
                                    assert(l[i - 1] == rest[i - 2]);
                                }
                            }
                        }
                    }
                    if scan_accepts(l, pending) {
                        assert forall|j: int| 0 <= j < rest.len() implies text::is_digit(
                            #[trigger] rest[j],
                        ) || (is_worklog_unit(rest[j]) && (if j == 0 {
                            true
                        } else {
                            text::is_digit(rest[j - 1])
                        })) by {
                            assert(rest[j] == l[j + 1]);
                            assert(text::is_digit(l[j + 1]) || (is_worklog_unit(l[j + 1])
                                && text::is_digit(l[j])));
                            if j > 0 {
                                assert(rest[j - 1] == l[j]);
                            }
                        }
                    }
                }
            }
        } else if !pending {
            assert(!(text::is_digit(l[0]) || (is_worklog_unit(l[0]) && pending)));
        } else if !is_worklog_unit(c) {
            assert(!(text::is_digit(l[0]) || (is_worklog_unit(l[0]) && pending)));
        } else {
            lemma_scan(rest, false, true, input);
            if rest.len() == 0 {
                assert(l.last() == c);
            } else {
                assert(rest.last() == l.last());
                assert(scan_accepts(rest, false) <==> scan_accepts(l, pending)) by {
                    if scan_accepts(rest, false) {
                        assert forall|i: int| 0 <= i < l.len() implies text::is_digit(
                            #[trigger] l[i],
                        ) || (is_worklog_unit(l[i]) && (if i == 0 {
                            pending
                        } else {
                            text::is_digit(l[i - 1])
                        })) by {
                            if i > 0 {
                                assert(l[i] == rest[i - 1]);
                                if i > 1 {
                                    assert(l[i - 1] == rest[i - 2]);
                                }
                            }
                        }
                    }
                    if scan_accepts(l, pending) {
                        assert(rest[0] == l[1]);
                        assert forall|j: int| 0 <= j < rest.len() implies text::is_digit(
                            #[trigger] rest[j],
                        ) || (is_worklog_unit(rest[j]) && (if j == 0 {
                            false
                        } else {
                            text::is_digit(rest[j - 1])
                        })) by {
                            assert(rest[j] == l[j + 1]);
                            assert(text::is_digit(l[j + 1]) || (is_worklog_unit(l[j + 1])
                                && text::is_digit(l[j])));
                            if j > 0 {
                                assert(rest[j - 1] == l[j]);
                            }
                        }
                    }
                }
            }
        }
    }
}

/// Law: the scan finds no problem in `l` exactly when `l` is one or more
/// numbers each followed by `w`, `d`, `h` or `m`.
pub proof fn law_scan_accepts_numbers_with_units(l: Seq<char>, input: Seq<char>)
    ensures
        scan_problem(l, false, false, input) is None <==> numbers_with_units(l),
{
    lemma_scan(l, false, false, input);
    if l.len() > 0 {
        assert(scan_accepts(l, false) <==> numbers_with_units(l)) by {
            if scan_accepts(l, false) {
                assert forall|i: int| 0 <= i < l.len() implies text::is_digit(#[trigger] l[i]) || (
                is_worklog_unit(l[i]) && i > 0 && text::is_digit(l[i - 1])) by {
                    assert(text::is_digit(l[i]) || (is_worklog_unit(l[i]) && (if i == 0 {
                        false
                    } else {
                        text::is_digit(l[i - 1])
                    })));
                }
            }
            if numbers_with_units(l) {
                assert forall|i: int| 0 <= i < l.len() implies text::is_digit(#[trigger] l[i]) || (
                is_worklog_unit(l[i]) && (if i == 0 {
                    false
                } else {
                    text::is_digit(l[i - 1])
                })) by {
                    assert(text::is_digit(l[i]) || (is_worklog_unit(l[i]) && i > 0
                        && text::is_digit(l[i - 1])));
                }
            }
        }
    }
}

/// Law: once lower-cased (in the ASCII way), the text is numbers with
/// lower-case units exactly when it was numbers with units in either case.
pub proof fn law_lower_units(l: Seq<char>)
    ensures
        numbers_with_units(text::lower_seq(l)) <==> numbers_with_units_any_case(l),
{
    let m = text::lower_seq(l);
    assert forall|i: int| 0 <= i < l.len() implies (text::is_digit(#[trigger] m[i])
        <==> text::is_digit(l[i])) && (is_worklog_unit(m[i]) <==> is_unit_any_case(l[i])) by {
        let c = l[i];
        assert(m[i] == text::lower_char(c));
        if text::is_upper(c) {
            assert((m[i] as u32) == (c as u32) + 32);
        }
    }
    if l.len() > 0 {
        assert(m.last() == m[l.len() - 1]);
        assert(l.last() == l[l.len() - 1]);
        if numbers_with_units(m) {
            assert forall|i: int| 0 <= i < l.len() implies text::is_digit(#[trigger] l[i]) || (
            is_unit_any_case(l[i]) && i > 0 && text::is_digit(l[i - 1])) by {
                assert(text::is_digit(m[i]) || (is_worklog_unit(m[i]) && i > 0 && text::is_digit(
                    m[i - 1],
                )));
                if i > 0 {
                    assert(text::is_digit(m[i - 1]) <==> text::is_digit(l[i - 1]));
                }
            }
        }
        if numbers_with_units_any_case(l) {
            assert forall|i: int| 0 <= i < m.len() implies text::is_digit(#[trigger] m[i]) || (
            is_worklog_unit(m[i]) && i > 0 && text::is_digit(m[i - 1])) by {
                assert(text::is_digit(l[i]) || (is_unit_any_case(l[i]) && i > 0 && text::is_digit(
                    l[i - 1],
                )));
                if i > 0 {
                    assert(text::is_digit(m[i - 1]) <==> text::is_digit(l[i - 1]));
                }
            }
        }
    }
}

/// What is wrong with a worklog duration, if anything: over 64 bytes, empty
/// after trimming, or — once whitespace is removed and the text is
/// lower-cased — not a sequence of numbers each followed by `w`, `d`, `h`
/// or `m`.
pub open spec fn duration_problem(input: Seq<char>) -> Option<Seq<char>> {
    if text::utf8_len(input) > 64 {
        Some(too_long_message(text::utf8_len(input)))
    } else if text::trim(input).len() == 0 {
        Some(empty_message())
    } else {
        scan_problem(
            text::lowercase_of(text::strip_white(text::trim(input))),
            false,
            false,
            input,
        )
    }
}

fn user_error(m: String) -> (e: JrError)
    ensures
        e == JrError::UserError(m),
{
    JrError::UserError(m)
}

/// Validates a Jira worklog duration string syntactically.
///
/// Accepts compact (`1h30m`, `1w2d3h30m`) and space-separated forms
/// (`2d 3h 30m`). Performs no arithmetic. Every rejection is a user error
/// (exit code 64).
pub fn parse_duration_validate(input: &str) -> (r: Result<(), JrError>)
    ensures
        r is Ok <==> duration_problem(input@) is None,
        r matches Err(e) ==> (e matches JrError::UserError(m) && duration_problem(input@)
            == Some(m@)),
        input.spec_bytes().len() > 64 ==> (r matches Err(JrError::UserError(m)) && m@
            == too_long_message(input.spec_bytes().len())),
        r is Ok <==> (input.spec_bytes().len() <= 64 && text::trim(input@).len() > 0
            && numbers_with_units(text::lowercase_of(text::strip_white(text::trim(input@))))),
        text::is_ascii_seq(input@) ==> (r is Ok <==> (input.spec_bytes().len() <= 64
            && numbers_with_units_any_case(text::strip_white(input@)))),
{
    proof {
        text::lemma_str_len(input);
        if text::is_ascii_seq(input@) {
            text::lemma_strip_white_trim(input@);
            law_lower_units(text::strip_white(input@));
        }
    }
    let v = text::chars_of(input);
    let n = text::utf8_byte_len(&v);
    if n > 64 {
        let mut m = String::from_str("Duration string too long (");
        let num = text::u128_to_string(n);
        m.append(num.as_str());
        m.append(" bytes; max 64). Use format: Nw Nd Nh Nm (e.g., 1w2d3h30m, 2d 3h, 30m).");
        return Err(user_error(m));
    }
    let (a, b) = text::trim_bounds(&v);
    if a == b {
        return Err(
            user_error(
                String::from_str(
                    "Duration cannot be empty. Use format: Nw Nd Nh Nm (e.g. 2h, 1d, 2d 3h 30m)",
                ),
            ),
        );
    }
    let normalised = text::strip_white_in(&v, a, b);
    let ns = text::string_from_chars(&normalised);
    let lower = text::lowercase(ns.as_str());
    let l = text::chars_of(lower.as_str());
    let ghost lg = l@;
    assert(duration_problem(input@) == scan_problem(lg, false, false, input@));
    proof {
        law_scan_accepts_numbers_with_units(lg, input@);
    }
    assert(lg.subrange(0, lg.len() as int) =~= lg);
    let mut pending = false;
    let mut found = false;
    let mut i: usize = 0;
    while i < l.len()
        invariant
            i <= l.len(),
            l@ == lg,
            input.spec_bytes().len() <= 64,
            duration_problem(input@) == scan_problem(lg, false, false, input@),
            scan_problem(lg, false, false, input@) is None <==> numbers_with_units(lg),
            lg == text::lowercase_of(text::strip_white(text::trim(input@))),
            text::trim(input@).len() > 0,
            text::is_ascii_seq(input@) ==> (numbers_with_units(lg) <==> numbers_with_units_any_case(
                text::strip_white(input@),
            )),
            scan_problem(lg, false, false, input@) == scan_problem(
                lg.subrange(i as int, lg.len() as int),
                pending,
                found,
                input@,
            ),
        decreases l.len() - i,
    {
        let ch = l[i];
        assert(lg.subrange(i as int, lg.len() as int)[0] == ch);
        assert(lg.subrange(i as int, lg.len() as int).drop_first() =~= lg.subrange(
            i + 1,
            lg.len() as int,
        ));
        if text::char_is_digit(ch) {
            pending = true;
        } else {
            if !pending {
                let mut m = String::from_str("Invalid duration \"");
                m.append(input);
                m.append("\": a unit letter appeared before any number. ");
                m.append("Use format: Nw Nd Nh Nm (e.g. 2h, 1d, 2d 3h 30m)");
                return Err(user_error(m));
            }
            pending = false;
            found = true;
            if !(ch == 'w' || ch == 'd' || ch == 'h' || ch == 'm') {
                let mut m = String::from_str("Unknown duration unit '");
                let mut one: Vec<char> = Vec::new();
                one.push(ch);
                let cs = text::string_from_chars(&one);
                m.append(cs.as_str());
                m.append("' in \"");
                m.append(input);
                m.append("\". ");
                m.append("Use format: Nw Nd Nh Nm (e.g. 2h, 1d, 2d 3h 30m)");
                return Err(user_error(m));
            }
        }
        i = i + 1;
    }
    if pending {
        let mut m = String::from_str("Invalid duration \"");
        m.append(input);
        m.append("\": number without unit. ");
        m.append("Use format: Nw Nd Nh Nm (e.g. 2h, 1d, 2d 3h 30m)");
        return Err(user_error(m));
    }
    if !found {
        let mut m = String::from_str("Invalid duration \"");
        m.append(input);
        m.append("\". ");
        m.append("Use format: Nw Nd Nh Nm (e.g. 2h, 1d, 2d 3h 30m)");
        return Err(user_error(m));
    }
    Ok(())
}

/// `seconds` as whole hours and minutes: `"30m"` under an hour, `"2h"` on
/// the hour, `"1h30m"` otherwise (leftover seconds are dropped).
pub open spec fn formatted_duration(seconds: nat) -> Seq<char> {
    let h = seconds / 3600;
    let m = (seconds % 3600) / 60;
    if h == 0 {
        text::decimal(m) + "m"@
    } else if m == 0 {
        text::decimal(h) + "h"@
    } else {
        text::decimal(h) + "h"@ + text::decimal(m) + "m"@
    }
}

/// Formats seconds into a human-readable duration string.
pub fn format_duration(seconds: u64) -> (r: String)
    ensures
        r@ == formatted_duration(seconds as nat),
{
    let hours = seconds / 3600;
    let minutes = (seconds % 3600) / 60;
    if hours == 0 {
        let mut r = text::u64_to_string(minutes);
        r.append("m");
        r
    } else if minutes == 0 {
        let mut r = text::u64_to_string(hours);
        r.append("h");
        r
    } else {
        let mut r = text::u64_to_string(hours);
        r.append("h");
        let ms = text::u64_to_string(minutes);
        r.append(ms.as_str());
        r.append("m");
        r
    }
}

// ───────────────────────────── reading a rendering back ─────────────────────────────

/// Reading a text of hour and minute counts left to right: the number
/// being read, and the seconds counted so far (a number followed by `h`
/// counts hours, by `m` minutes; any other character ends the number).
pub open spec fn hm_state(t: Seq<char>) -> (nat, nat)
    decreases t.len(),
{
    if t.len() == 0 {
        (0, 0)
    } else {
        let (n, total) = hm_state(t.drop_last());
        let c = t.last();
        if text::is_digit(c) {
            (n * 10 + ((c as u32) - 0x30) as nat, total)
        } else if c == 'h' {
            (0, total + n * 3600)
        } else if c == 'm' {
            (0, total + n * 60)
        } else {
            (0, total)
        }
    }
}

/// The number of seconds a text of hour and minute counts stands for.
pub open spec fn hm_seconds(t: Seq<char>) -> nat {
    hm_state(t).1
}

proof fn lemma_digit_char(d: nat)
    requires
        d < 10,
    ensures
        text::is_digit(text::digit_char(d)),
        ((text::digit_char(d) as u32) - 0x30) as nat == d,
{
    vstd::utf8::char_u32_cast(text::digit_char(d), (d + 0x30) as u32);
}

/// Reading the digits of `n` after a prefix that ends no number leaves `n`
/// pending and the count unchanged.
proof fn lemma_read_decimal(p: Seq<char>, n: nat)
    requires
        hm_state(p).0 == 0,
    ensures
        hm_state(p + text::decimal(n)) == (n, hm_state(p).1),
    decreases n,
{
    if n < 10 {
        lemma_digit_char(n);
        assert((p + text::decimal(n)).drop_last() =~= p);
    } else {
        lemma_read_decimal(p, n / 10);
        lemma_digit_char(n % 10);
        assert((p + text::decimal(n)).drop_last() =~= p + text::decimal(n / 10));
        assert((n / 10) * 10 + n % 10 == n) by (nonlinear_arith);
    }
}

proof fn lemma_read_unit(p: Seq<char>, c: char)
    requires
        c == 'h' || c == 'm',
    ensures
        hm_state(p.push(c)) == (0nat, hm_state(p).1 + hm_state(p).0 * if c == 'h' {
            3600nat
        } else {
            60nat
        }),
{
    assert(p.push(c).drop_last() =~= p);
}

/// Law: reading back what `format_duration` renders for a whole number of
/// minutes gives that number of seconds.
pub proof fn law_format_duration_round_trip(seconds: nat)
    requires
        seconds % 60 == 0,
    ensures
        hm_seconds(formatted_duration(seconds)) == seconds,
{
    reveal_strlit("h");
    reveal_strlit("m");
    let h = seconds / 3600;
    let m = (seconds % 3600) / 60;
    assert(seconds == h * 3600 + m * 60) by (nonlinear_arith)
        requires
            seconds % 60 == 0,
            h == seconds / 3600,
            m == (seconds % 3600) / 60,
    ;
    let e = Seq::<char>::empty();
    if h == 0 {
        lemma_read_decimal(e, m);
        assert(e + text::decimal(m) =~= text::decimal(m));
        lemma_read_unit(text::decimal(m), 'm');
        assert(formatted_duration(seconds) =~= text::decimal(m).push('m'));
    } else if m == 0 {
        lemma_read_decimal(e, h);
        assert(e + text::decimal(h) =~= text::decimal(h));
        lemma_read_unit(text::decimal(h), 'h');
        assert(formatted_duration(seconds) =~= text::decimal(h).push('h'));
    } else {
        lemma_read_decimal(e, h);
        assert(e + text::decimal(h) =~= text::decimal(h));
        let a = text::decimal(h).push('h');
        lemma_read_unit(text::decimal(h), 'h');
        lemma_read_decimal(a, m);
        lemma_read_unit(a + text::decimal(m), 'm');
        assert(formatted_duration(seconds) =~= (a + text::decimal(m)).push('m'));
    }
}

} // verus!

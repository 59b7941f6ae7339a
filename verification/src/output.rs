//! What the commands print: the output format, tables, and the sanitising
//! of free-form text before it reaches a terminal.
use vstd::prelude::*;

use comfy_table::Table;

use crate::text;

verus! {

/// The output format chosen with `--output`.
#[derive(Clone, Copy, Debug)]
pub enum OutputFormat {
    Table,
    Json,
}

// ───────────────────────────── tables ─────────────────────────────

/// A text table under construction.
#[verifier::external_type_specification]
#[verifier::external_body]
pub struct ExTable(Table);

/// The texts of a table's header cells.
pub uninterp spec fn table_header_of(t: Table) -> Seq<Seq<char>>;

/// The texts of a table's rows, cell by cell, in the order they were added.
pub uninterp spec fn table_rows_of(t: Table) -> Seq<Seq<Seq<char>>>;

/// The lines of `s`: the pieces between its `\n` characters (one empty
/// line for empty text).
pub open spec fn lines_of(s: Seq<char>) -> Seq<Seq<char>>
    decreases s.len(),
{
    if s.len() == 0 {
        seq![Seq::empty()]
    } else if s.last() == '\n' {
        lines_of(s.drop_last()).push(Seq::empty())
    } else {
        let ls = lines_of(s.drop_last());
        ls.update(ls.len() - 1, ls.last().push(s.last()))
    }
}

/// What a drawing of a table with `header_len` header cells and `row_count`
/// rows looks like line by line: the first line is the top border and
/// starts with `┌`, the last is the bottom border and starts with `└`, and
/// when there is a column, the header and every row take at least one line
/// between them.
pub open spec fn drawn_table(text: Seq<char>, header_len: int, row_count: int) -> bool {
    let ls = lines_of(text);
    &&& ls.len() > 0
    &&& ls[0].len() > 0
    &&& ls[0][0] == '\u{250c}'
    &&& ls.last().len() > 0
    &&& ls.last()[0] == '\u{2514}'
    &&& header_len > 0 ==> ls.len() >= row_count + 3
}

/// A table with the given header row and no rows yet.
///
/// Trusted: calls `Table::new` and `set_header`. The contract claims that
/// the header holds the given texts, in order, and that there are no rows.
#[verifier::external_body]
fn table_with_header(headers: &[&str]) -> (t: Table)
    ensures
        table_header_of(t) == headers@.map_values(|h: &str| h@),
        table_rows_of(t) == Seq::<Seq<Seq<char>>>::empty(),
{
    let mut table = Table::new();
    table.set_header(headers.to_vec());
    table
}

/// Appends a row of cells to a table.
///
/// Trusted: calls `Table::add_row`. The contract claims that the row's
/// texts are appended after the rows already there and that the header is
/// left as it was.
#[verifier::external_body]
fn table_add_row(table: &mut Table, row: &Vec<String>)
    ensures
        table_header_of(*final(table)) == table_header_of(*old(table)),
        table_rows_of(*final(table)) == table_rows_of(*old(table)).push(
            row@.map_values(|c: String| c@),
        ),
{
    table.add_row(row.clone());
}

/// The table drawn as text, in the condensed UTF-8 style, its columns
/// adapting to the terminal's width.
///
/// Trusted: calls `load_style(UTF8_FULL_CONDENSED)`,
/// `set_content_arrangement(Dynamic)` and formats the table with `{}`, which
/// joins the drawn lines with `\n`. The contract claims the shape that the
/// drawing has whatever the terminal's width: a top border line starting
/// with `┌`, a bottom border line starting with `└`, and, when the header
/// has a cell (so there is a column), at least one line for the header and
/// one for each row in between. How cells are wrapped and padded depends on
/// that width and is not claimed.
#[verifier::external_body]
fn table_text(mut table: Table) -> (r: String)
    ensures
        drawn_table(r@, table_header_of(table).len() as int, table_rows_of(table).len() as int),
{
    table
        .load_style(comfy_table::presets::UTF8_FULL_CONDENSED)
        .set_content_arrangement(comfy_table::ContentArrangement::Dynamic);
    table.to_string()
}

/// Draws a table with the given headers and rows, in the condensed UTF-8
/// style: a top border line starting with `┌`, the header and then every
/// row on at least one line each, and a bottom border line starting with
/// `└`.
pub fn render_table(headers: &[&str], rows: &[Vec<String>]) -> (r: String)
    ensures
        drawn_table(r@, headers@.len() as int, rows@.len() as int),
{
    let mut table = table_with_header(headers);
    let mut i: usize = 0;
    while i < rows.len()
        invariant
            i <= rows.len(),
            table_header_of(table) == headers@.map_values(|h: &str| h@),
            table_rows_of(table) == rows@.take(i as int).map_values(|r: Vec<String>| r@.map_values(|c: String| c@)),
        decreases rows.len() - i,
    {
        table_add_row(&mut table, &rows[i]);
        assert(rows@.take(i + 1) =~= rows@.take(i as int).push(rows@[i as int]));
        i = i + 1;
    }
    assert(rows@.take(i as int) =~= rows@);
    table_text(table)
}

// ───────────────────────────── sanitising for the terminal ─────────────────────────────

/// The maximum number of characters shown of a profile's `env` tag.
pub const MAX_ENV_DISPLAY_LEN: usize = 40;

/// Where a scan of terminal text stands with respect to escape sequences.
#[derive(Clone, Copy, Debug)]
pub enum EscapeState {
    /// Plain text.
    Text,
    /// Just after an ESC.
    Escape,
    /// Inside a CSI sequence (`ESC [` … final byte `@`..`~`).
    Csi,
    /// Inside an OSC sequence (`ESC ]` … BEL or `ESC \`).
    Osc,
    /// Inside an OSC sequence, just after an ESC.
    OscEscape,
}

pub open spec fn esc() -> char {
    '\u{1b}'
}

/// What one character of plain text contributes: nothing for a control
/// character (ESC starts an escape), itself otherwise.
pub open spec fn text_step(c: char) -> (EscapeState, Seq<char>) {
    if c == esc() {
        (EscapeState::Escape, Seq::empty())
    } else if text::is_control(c) {
        (EscapeState::Text, Seq::empty())
    } else {
        (EscapeState::Text, seq![c])
    }
}

/// One step of the scan: the next state and the characters kept.
pub open spec fn escape_step(st: EscapeState, c: char) -> (EscapeState, Seq<char>) {
    match st {
        EscapeState::Text => text_step(c),
        EscapeState::Escape => if c == '[' {
            (EscapeState::Csi, Seq::empty())
        } else if c == ']' {
            (EscapeState::Osc, Seq::empty())
        } else {
            text_step(c)
        },
        EscapeState::Csi => if 0x40 <= (c as u32) && (c as u32) <= 0x7E {
            (EscapeState::Text, Seq::empty())
        } else {
            (EscapeState::Csi, Seq::empty())
        },
        EscapeState::Osc => if (c as u32) == 0x07 {
            (EscapeState::Text, Seq::empty())
        } else if c == esc() {
            (EscapeState::OscEscape, Seq::empty())
        } else {
            (EscapeState::Osc, Seq::empty())
        },
        EscapeState::OscEscape => if c == '\\' {
            (EscapeState::Text, Seq::empty())
        } else if (c as u32) == 0x07 {
            (EscapeState::Text, Seq::empty())
        } else if c == esc() {
            (EscapeState::OscEscape, Seq::empty())
        } else {
            (EscapeState::Osc, Seq::empty())
        },
    }
}

/// The characters of `s` that survive stripping, scanning from state `st`:
/// ASCII control characters are dropped, and so are ANSI CSI and OSC
/// escape sequences as a whole (an unterminated one runs to the end).
pub open spec fn strip_from(st: EscapeState, s: Seq<char>) -> Seq<char>
    decreases s.len(),
{
    if s.len() == 0 {
        Seq::empty()
    } else {
        let (next, kept) = escape_step(st, s[0]);
        kept + strip_from(next, s.drop_first())
    }
}

/// `s` without control characters and ANSI escape sequences.
pub open spec fn strip_controls(s: Seq<char>) -> Seq<char> {
    strip_from(EscapeState::Text, s)
}

/// The displayed `env` tag: stripped, then capped at 40 characters with
/// `…` appended when it was longer.
pub open spec fn env_display(s: Seq<char>) -> Seq<char> {
    let t = strip_controls(s);
    if t.len() > 40 {
        t.take(40).push('\u{2026}')
    } else {
        t
    }
}

fn step(st: EscapeState, c: char, out: &mut Vec<char>) -> (r: EscapeState)
    ensures
        r == escape_step(st, c).0,
        final(out)@ == old(out)@ + escape_step(st, c).1,
{
    let u = c as u32;
    let in_text = match st {
        EscapeState::Text => true,
        EscapeState::Escape => !(c == '[' || c == ']'),
        _ => false,
    };
    if in_text {
        if c == '\u{1b}' {
            assert(old(out)@ + Seq::<char>::empty() =~= old(out)@);
            return EscapeState::Escape;
        }
        if u <= 0x1F || u == 0x7F {
            assert(old(out)@ + Seq::<char>::empty() =~= old(out)@);
            return EscapeState::Text;
        }
        out.push(c);
        assert(final(out)@ =~= old(out)@ + seq![c]);
        return EscapeState::Text;
    }
    assert(old(out)@ + Seq::<char>::empty() =~= old(out)@);
    match st {
        EscapeState::Escape => if c == '[' {
            EscapeState::Csi
        } else {
            EscapeState::Osc
        },
        EscapeState::Csi => if 0x40 <= u && u <= 0x7E {
            EscapeState::Text
        } else {
            EscapeState::Csi
        },
        EscapeState::Osc => if u == 0x07 {
            EscapeState::Text
        } else if c == '\u{1b}' {
            EscapeState::OscEscape
        } else {
            EscapeState::Osc
        },
        EscapeState::OscEscape => if c == '\\' || u == 0x07 {
            EscapeState::Text
        } else if c == '\u{1b}' {
            EscapeState::OscEscape
        } else {
            EscapeState::Osc
        },
        EscapeState::Text => EscapeState::Text,
    }
}

/// Strip ASCII control characters (`0x00`-`0x1F`, `0x7F`) and ANSI CSI/OSC
/// escape sequences from a profile's free-form `env` tag, and cap the
/// result at 40 characters with a `…` marker when capped — for display on a
/// human-readable channel only (JSON output shows the tag verbatim).
pub fn sanitize_env_display(value: &str) -> (r: String)
    ensures
        r@ == env_display(value@),
{
    let v = text::chars_of(value);
    let mut out: Vec<char> = Vec::new();
    let mut st = EscapeState::Text;
    let mut i: usize = 0;
    assert(v@.skip(0) =~= v@);
    while i < v.len()
        invariant
            i <= v.len(),
            v@ == value@,
            out@ + strip_from(st, v@.skip(i as int)) == strip_controls(value@),
        decreases v.len() - i,
    {
        let ghost before = out@;
        let ghost st0 = st;
        assert(v@.skip(i as int)[0] == v@[i as int]);
        assert(v@.skip(i as int).drop_first() =~= v@.skip(i + 1));
        st = step(st, v[i], &mut out);
        assert(out@ + strip_from(st, v@.skip(i + 1)) =~= before + strip_from(st0, v@.skip(i as int)));
        i = i + 1;
    }
    assert(out@ + strip_from(st, v@.skip(i as int)) =~= out@);
    if out.len() > MAX_ENV_DISPLAY_LEN {
        let capped = text::take_with_ellipsis(&out, MAX_ENV_DISPLAY_LEN);
        text::string_from_chars(&capped)
    } else {
        text::string_from_chars(&out)
    }
}

// ───────────────────────────── laws of the sanitiser ─────────────────────────────

/// Text without control characters.
pub open spec fn has_no_control(s: Seq<char>) -> bool {
    forall|i: int| 0 <= i < s.len() ==> !text::is_control(#[trigger] s[i])
}

proof fn lemma_plain_text_kept(s: Seq<char>)
    requires
        has_no_control(s),
    ensures
        strip_from(EscapeState::Text, s) == s,
    decreases s.len(),
{
    if s.len() > 0 {
        assert(!text::is_control(s[0]));
        assert(has_no_control(s.drop_first())) by {
            assert forall|i: int| 0 <= i < s.drop_first().len() implies !text::is_control(
                #[trigger] s.drop_first()[i],
            ) by {
                assert(s.drop_first()[i] == s[i + 1]);
            }
        }
        lemma_plain_text_kept(s.drop_first());
        assert(seq![s[0]] + s.drop_first() =~= s);
    }
}

proof fn lemma_stripped_has_no_control(st: EscapeState, s: Seq<char>)
    ensures
        has_no_control(strip_from(st, s)),
    decreases s.len(),
{
    if s.len() > 0 {
        lemma_stripped_has_no_control(escape_step(st, s[0]).0, s.drop_first());
        let kept = escape_step(st, s[0]).1;
        let rest = strip_from(escape_step(st, s[0]).0, s.drop_first());
        assert(has_no_control(kept));
        assert forall|i: int| 0 <= i < (kept + rest).len() implies !text::is_control(
            #[trigger] (kept + rest)[i],
        ) by {
            if i >= kept.len() {
                assert((kept + rest)[i] == rest[i - kept.len()]);
            }
        }
    }
}

/// Law: a tag without control characters and at most 40 characters long
/// is shown exactly as it is.
pub proof fn law_ordinary_env_unchanged(s: Seq<char>)
    requires
        has_no_control(s),
        s.len() <= 40,
    ensures
        env_display(s) == s,
{
    lemma_plain_text_kept(s);
}

/// Law: what is shown of a tag holds no control character (so no escape
/// sequence can reach the terminal), and is at most 41 characters long.
pub proof fn law_env_display_is_safe(s: Seq<char>)
    ensures
        has_no_control(env_display(s)),
        env_display(s).len() <= 41,
{
    let t = strip_controls(s);
    lemma_stripped_has_no_control(EscapeState::Text, s);
    if t.len() > 40 {
        let r = t.take(40).push('\u{2026}');
        assert forall|i: int| 0 <= i < r.len() implies !text::is_control(#[trigger] r[i]) by {
            if i < 40 {
                assert(r[i] == t[i]);
            }
        }
    }
}

} // verus!

//! Decisions shared by the commands' flag handling.
use vstd::prelude::*;

use crate::error::JrError;
use crate::text;

verus! {

/// The number of results a listing shows when neither `--limit` nor
/// `--all` is given.
pub const DEFAULT_LIMIT: u32 = 30;

/// The effective limit of a listing: none with `--all`, otherwise the
/// explicit `--limit` or the default.
pub fn resolve_effective_limit(limit: Option<u32>, all: bool) -> (r: Option<u32>)
    ensures
        r == if all {
            None
        } else {
            match limit {
                Some(n) => Some(n),
                None => Some(DEFAULT_LIMIT),
            }
        },
{
    if all {
        None
    } else {
        match limit {
            Some(n) => Some(n),
            None => Some(DEFAULT_LIMIT),
        }
    }
}

/// Prompts are off when `--no-input` is given, or when stdin is not a
/// terminal — unless a terminal is forced for testing, or an OAuth code is
/// injected through the environment.
pub fn effective_no_input(
    no_input: bool,
    stdin_is_tty: bool,
    tty_forced: bool,
    oauth_code_injected: bool,
) -> (r: bool)
    ensures
        r == (no_input || (!tty_forced && !stdin_is_tty && !oauth_code_injected)),
{
    no_input || (!tty_forced && !stdin_is_tty && !oauth_code_injected)
}

/// The profile a subcommand acts on: its own `--profile`, else the global one.
pub fn effective_profile(own: Option<String>, global: Option<String>) -> (r: Option<String>)
    ensures
        r == match own {
            Some(p) => Some(p),
            None => global,
        },
{
    match own {
        Some(p) => Some(p),
        None => global,
    }
}

/// `auth switch` takes the profile as its argument; the global `--profile`
/// flag is refused there.
pub fn check_switch_without_profile_flag(global_profile_given: bool) -> (r: Result<(), JrError>)
    ensures
        !global_profile_given ==> r is Ok,
        global_profile_given ==> (r matches Err(JrError::UserError(m)) && m@
            == "--profile is not valid for 'auth switch'. The profile to activate is the positional argument. Try: jr auth switch <NAME>"@),
{
    if global_profile_given {
        Err(
            JrError::UserError(
                String::from_str(
                    "--profile is not valid for 'auth switch'. The profile to activate is the positional argument. Try: jr auth switch <NAME>",
                ),
            ),
        )
    } else {
        Ok(())
    }
}

/// The exit code of a failed command: its error's code when it is one of
/// the tool's errors, 1 otherwise.
pub fn failure_exit_code(err: Option<&JrError>) -> (c: i32)
    ensures
        c == match err {
            Some(e) => crate::error::exit_code_of(*e),
            None => 1,
        },
{
    match err {
        Some(e) => e.exit_code(),
        None => 1,
    }
}

/// Whether a usage text is that of `jr issue comment`.
pub fn is_issue_comment_usage(usage: &str) -> (b: bool)
    ensures
        b == text::contains_seq(usage@, "issue comment"@),
{
    let u = text::chars_of(usage);
    let p = text::chars_of("issue comment");
    text::contains_chars(&u, &p)
}

/// What is printed when `jr issue comment` is given something that is not
/// one of its subcommands: a pointer to `jr issue comments` for `list` or
/// `ls` (any ASCII case), the subcommand form otherwise.
pub open spec fn comment_hint_lines(attempted: Option<Seq<char>>) -> Seq<Seq<char>> {
    let listing = match attempted {
        Some(t) => text::eq_ignore_ascii_case(t, "list"@) || text::eq_ignore_ascii_case(t, "ls"@),
        None => false,
    };
    if listing {
        seq!["error: to list all comments, use `jr issue comments` (plural)"@]
    } else {
        seq![
            "error: use `jr issue comment add` instead"@,
            "       `jr issue comment KEY \"text\"` is no longer valid; the comment command is now a subcommand group."@,
        ]
    }
}

/// The lines printed for a mistaken `jr issue comment` invocation.
pub fn comment_hint(attempted: Option<&str>) -> (r: Vec<String>)
    ensures
        text::views(r@) == comment_hint_lines(
            match attempted {
                Some(t) => Some(t@),
                None => None,
            },
        ),
{
    let listing = match attempted {
        Some(t) => text::str_eq_ignore_ascii_case(t, "list") || text::str_eq_ignore_ascii_case(
            t,
            "ls",
        ),
        None => false,
    };
    let mut lines: Vec<String> = Vec::new();
    if listing {
        lines.push(String::from_str("error: to list all comments, use `jr issue comments` (plural)"));
    } else {
        lines.push(String::from_str("error: use `jr issue comment add` instead"));
        lines.push(
            String::from_str(
                "       `jr issue comment KEY \"text\"` is no longer valid; the comment command is now a subcommand group.",
            ),
        );
    }
    assert(text::views(lines@) =~= comment_hint_lines(
        match attempted {
            Some(t) => Some(t@),
            None => None,
        },
    ));
    lines
}

} // verus!

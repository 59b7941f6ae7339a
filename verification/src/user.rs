//! What `user search`, `user list` and `user view` show of a user.
use vstd::prelude::*;

use colored::Colorize;

use crate::error::JrError;
use crate::text;
use crate::types::jira::User;

verus! {

/// `s` wrapped in the ANSI escape that sets foreground colour `code`, and
/// the reset that ends it.
pub open spec fn ansi_painted(s: Seq<char>, code: Seq<char>) -> Seq<char> {
    "\u{1b}["@ + code + "m"@ + s + "\u{1b}[0m"@
}

/// `r` is how `s` shows in colour `code`: painted when the terminal takes
/// colours, plain otherwise.
pub open spec fn shown_as(r: Seq<char>, s: Seq<char>, code: Seq<char>) -> bool {
    r == s || r == ansi_painted(s, code)
}

pub open spec fn no_escape(s: Seq<char>) -> bool {
    forall|i: int| 0 <= i < s.len() ==> s[i] != '\u{1b}'
}

/// `s` in green, when colours are on.
///
/// Trusted: calls `colored::Colorize::green` and formats the result. Whether
/// colours are on depends on the environment (`NO_COLOR`, `CLICOLOR`, the
/// terminal), so the contract claims only that the text is `s` either plain
/// or wrapped in `ESC[32m` … `ESC[0m`, which is what `ColoredString`'s
/// `Display` writes for a string without reset sequences.
#[verifier::external_body]
fn paint_green(s: &str) -> (r: String)
    requires
        no_escape(s@),
    ensures
        shown_as(r@, s@, "32"@),
{
    s.green().to_string()
}

/// `s` in red, when colours are on.
///
/// Trusted: calls `colored::Colorize::red` and formats the result; as for
/// `paint_green`, the text is `s` plain or wrapped in `ESC[31m` … `ESC[0m`.
#[verifier::external_body]
fn paint_red(s: &str) -> (r: String)
    requires
        no_escape(s@),
    ensures
        shown_as(r@, s@, "31"@),
{
    s.red().to_string()
}

/// How a user's active flag shows: a green check, a red cross, or a dash
/// when unknown.
pub open spec fn active_shown(active: Option<bool>, r: Seq<char>) -> bool {
    match active {
        Some(true) => shown_as(r, "\u{2713}"@, "32"@),
        Some(false) => shown_as(r, "\u{2717}"@, "31"@),
        None => r == "\u{2014}"@,
    }
}

/// The shown email: the address, or a dash when it is hidden.
pub open spec fn email_shown(email: Option<String>) -> Seq<char> {
    match email {
        Some(e) => e@,
        None => "\u{2014}"@,
    }
}

/// `row` is the list row of `u`: display name, email, active flag, account id.
pub open spec fn is_user_row(u: User, row: Seq<String>) -> bool {
    &&& row.len() == 4
    &&& row[0]@ == u.display_name@
    &&& row[1]@ == email_shown(u.email_address)
    &&& active_shown(u.active, row[2]@)
    &&& row[3]@ == u.account_id@
}

/// The active flag as shown.
pub fn format_active(active: Option<bool>) -> (r: String)
    ensures
        active_shown(active, r@),
{
    proof {
        reveal_strlit("\u{2713}");
        reveal_strlit("\u{2717}");
    }
    match active {
        Some(true) => paint_green("\u{2713}"),
        Some(false) => paint_red("\u{2717}"),
        None => String::from_str("\u{2014}"),
    }
}

fn email_text(email: &Option<String>) -> (r: String)
    ensures
        r@ == email_shown(*email),
{
    match email {
        Some(e) => e.clone(),
        None => String::from_str("\u{2014}"),
    }
}

/// The list row of a user.
pub fn format_user_row(user: &User) -> (r: Vec<String>)
    ensures
        is_user_row(*user, r@),
{
    let mut row: Vec<String> = Vec::new();
    row.push(user.display_name.clone());
    row.push(email_text(&user.email_address));
    row.push(format_active(user.active));
    row.push(user.account_id.clone());
    row
}

/// The rows of a user list, one per user, in order.
pub fn user_list_rows(users: &[User]) -> (r: Vec<Vec<String>>)
    ensures
        r@.len() == users@.len(),
        forall|i: int| 0 <= i < users@.len() ==> is_user_row(users@[i], #[trigger] r@[i]@),
{
    let mut rows: Vec<Vec<String>> = Vec::new();
    let mut i: usize = 0;
    while i < users.len()
        invariant
            i <= users@.len(),
            rows@.len() == i,
            forall|j: int| 0 <= j < i ==> is_user_row(users@[j], #[trigger] rows@[j]@),
        decreases users@.len() - i,
    {
        rows.push(format_user_row(&users[i]));
        i = i + 1;
    }
    rows
}

fn field_row(label: &str, value: String) -> (r: Vec<String>)
    ensures
        r@.len() == 2,
        r@[0]@ == label@,
        r@[1] == value,
{
    let mut row: Vec<String> = Vec::new();
    row.push(String::from_str(label));
    row.push(value);
    row
}

/// The rows of `user view`: account id, display name, email, active flag.
pub fn user_detail_rows(user: &User) -> (r: Vec<Vec<String>>)
    ensures
        r@.len() == 4,
        r@[0]@.len() == 2 && r@[0]@[0]@ == "Account ID"@ && r@[0]@[1]@ == user.account_id@,
        r@[1]@.len() == 2 && r@[1]@[0]@ == "Display Name"@ && r@[1]@[1]@ == user.display_name@,
        r@[2]@.len() == 2 && r@[2]@[0]@ == "Email"@ && r@[2]@[1]@ == email_shown(
            user.email_address,
        ),
        r@[3]@.len() == 2 && r@[3]@[0]@ == "Active"@ && active_shown(user.active, r@[3]@[1]@),
{
    let mut rows: Vec<Vec<String>> = Vec::new();
    rows.push(field_row("Account ID", user.account_id.clone()));
    rows.push(field_row("Display Name", user.display_name.clone()));
    rows.push(field_row("Email", email_text(&user.email_address)));
    rows.push(field_row("Active", format_active(user.active)));
    rows
}

/// An API error that says the account does not exist (404 or 400).
pub open spec fn is_not_found(err: JrError) -> bool {
    match err {
        JrError::ApiError { status, .. } => status == 404 || status == 400,
        _ => false,
    }
}

/// The error `user view` reports when looking the account up failed: an
/// API error 404 or 400 means the account does not exist (a user error);
/// any other error is reported as it is.
pub fn view_user_error(account_id: &str, err: JrError) -> (r: JrError)
    ensures
        is_not_found(err) ==> (r matches JrError::UserError(m) && m@ == "User with accountId '"@
            + account_id@ + "' not found."@),
        !is_not_found(err) ==> r == err,
{
    let not_found = match &err {
        JrError::ApiError { status, .. } => *status == 404 || *status == 400,
        _ => false,
    };
    if not_found {
        let mut m = String::from_str("User with accountId '");
        m.append(account_id);
        m.append("' not found.");
        JrError::UserError(m)
    } else {
        err
    }
}

} // verus!

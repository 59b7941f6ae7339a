//! The decisions of the sprint commands that do not depend on the server.
use vstd::prelude::*;

use crate::text;
use crate::types::jira::{Issue, Sprint};

verus! {

/// The most issues one sprint add or remove takes.
pub const MAX_SPRINT_ISSUES: usize = 50;

/// More issues than one operation takes are refused, with this message.
pub fn check_sprint_issue_count(count: usize) -> (r: Result<(), String>)
    ensures
        count <= MAX_SPRINT_ISSUES ==> r is Ok,
        count > MAX_SPRINT_ISSUES ==> (r matches Err(m) && m@ == "Too many issues (got "@
            + text::decimal(count as nat) + "). Maximum is 50 per operation."@),
{
    if count <= MAX_SPRINT_ISSUES {
        return Ok(());
    }
    let mut m = String::from_str("Too many issues (got ");
    let n = text::u64_to_string(count as u64);
    m.append(n.as_str());
    m.append("). Maximum is 50 per operation.");
    Err(m)
}

/// The message when a board has no active sprint.
pub fn no_active_sprint_message(board_id: u64) -> (r: String)
    ensures
        r@ == "No active sprint found for board "@ + text::decimal(board_id as nat) + "."@,
{
    let mut m = String::from_str("No active sprint found for board ");
    let n = text::u64_to_string(board_id);
    m.append(n.as_str());
    m.append(".");
    m
}

/// The message when sprint commands meet a board that is not a scrum board.
pub fn not_scrum_board_message(board_id: u64, board_type: &str) -> (r: String)
    ensures
        r@ == "Sprint commands are only available for scrum boards. Board "@ + text::decimal(
            board_id as nat,
        ) + " is a "@ + board_type@ + " board."@,
{
    let mut m = String::from_str("Sprint commands are only available for scrum boards. Board ");
    let n = text::u64_to_string(board_id);
    m.append(n.as_str());
    m.append(" is a ");
    m.append(board_type);
    m.append(" board.");
    m
}

/// A sprint's list row: id, state (blank when unknown), name, end date
/// (`-` when unknown).
pub open spec fn sprint_row(s: Sprint) -> Seq<Seq<char>> {
    seq![
        text::decimal(s.id as nat),
        match s.state { Some(x) => x@, None => Seq::empty() },
        s.name@,
        match s.end_date { Some(x) => x@, None => "-"@ },
    ]
}

/// The rows of `sprint list`, one per sprint, in order.
pub fn sprint_rows(sprints: &[Sprint]) -> (r: Vec<Vec<String>>)
    ensures
        r@.len() == sprints@.len(),
        forall|i: int| 0 <= i < sprints@.len() ==> text::views(#[trigger] r@[i]@) == sprint_row(sprints@[i]),
{
    let mut rows: Vec<Vec<String>> = Vec::new();
    let mut i: usize = 0;
    while i < sprints.len()
        invariant
            i <= sprints@.len(),
            rows@.len() == i,
            forall|j: int| 0 <= j < i ==> text::views(#[trigger] rows@[j]@) == sprint_row(sprints@[j]),
        decreases sprints@.len() - i,
    {
        let s = &sprints[i];
        let mut row: Vec<String> = Vec::new();
        row.push(text::u64_to_string(s.id));
        row.push(
            match &s.state {
                Some(x) => x.clone(),
                None => String::new(),
            },
        );
        row.push(s.name.clone());
        row.push(
            match &s.end_date {
                Some(x) => x.clone(),
                None => String::from_str("-"),
            },
        );
        assert(text::views(row@) =~= sprint_row(sprints@[i as int]));
        rows.push(row);
        i = i + 1;
    }
    rows
}


/// The issue's status is in the `done` category.
pub open spec fn issue_is_done(issue: Issue) -> bool {
    match issue.fields.status {
        Some(s) => match s.status_category {
            Some(c) => c.key@ == "done"@,
            None => false,
        },
        None => false,
    }
}

/// Whether the issue's status is in the `done` category (its points count
/// as completed in a sprint summary).
pub fn is_done(issue: &Issue) -> (b: bool)
    ensures
        b == issue_is_done(*issue),
{
    match &issue.fields.status {
        Some(s) => match &s.status_category {
            Some(c) => text::str_eq(c.key.as_str(), "done"),
            None => false,
        },
        None => false,
    }
}

} // verus!

//! Bulk operations: what is submitted, and the progress reported back.
use vstd::prelude::*;

use std::collections::HashMap;

use serde_json::Value;

use crate::text;

verus! {

/// Request body of a bulk field edit.
#[derive(Debug)]
pub struct BulkEditRequest {
    pub selected_issue_ids_or_keys: Vec<String>,
    pub selected_actions: Vec<String>,
    pub edited_fields_input: Value,
}

/// Request body of a bulk transition.
#[derive(Debug)]
pub struct BulkTransitionRequest {
    pub selected_issue_ids_or_keys: Vec<String>,
    pub transition_id: String,
}

/// Reply to a bulk submission: the id of the task to poll.
#[derive(Debug)]
pub struct BulkSubmitResponse {
    pub task_id: String,
}

/// Progress of a bulk task.
#[derive(Debug)]
pub struct BulkOperationProgress {
    pub task_id: Option<String>,
    /// Terminal when one of COMPLETE, FAILED, CANCELLED, DEAD (and aliases).
    pub status: String,
    pub processed_accessible_issues: Vec<String>,
    pub failed_accessible_issues: HashMap<String, BulkActionError>,
    /// Human-readable failure reason when the status is FAILED.
    pub failure_reason: Option<String>,
    pub progress_percent: Option<i64>,
    pub total_issue_count: Option<i64>,
    pub invalid_or_inaccessible_issue_count: Option<i32>,
}

/// The statuses after which polling stops: the documented terminal ones,
/// the `COMPLETED` alias, and the two partial-outcome statuses.
pub open spec fn is_terminal_status(s: Seq<char>) -> bool {
    ||| s == "COMPLETE"@
    ||| s == "COMPLETED"@
    ||| s == "FAILED"@
    ||| s == "CANCELLED"@
    ||| s == "DEAD"@
    ||| s == "PARTIAL_FAILURE"@
    ||| s == "PROCESSED_WITH_ERRORS"@
}

/// The statuses the client recognises: the terminal ones and the three
/// documented non-terminal ones.
pub open spec fn is_known_status_text(s: Seq<char>) -> bool {
    ||| is_terminal_status(s)
    ||| s == "ENQUEUED"@
    ||| s == "RUNNING"@
    ||| s == "CANCEL_REQUESTED"@
}

fn is_one_of_terminal(s: &str) -> (b: bool)
    ensures
        b == is_terminal_status(s@),
{
    text::str_eq(s, "COMPLETE") || text::str_eq(s, "COMPLETED") || text::str_eq(s, "FAILED")
        || text::str_eq(s, "CANCELLED") || text::str_eq(s, "DEAD") || text::str_eq(
        s,
        "PARTIAL_FAILURE",
    ) || text::str_eq(s, "PROCESSED_WITH_ERRORS")
}

impl BulkOperationProgress {
    /// Whether this status is a terminal (final) state (case-sensitive).
    pub fn is_terminal(&self) -> (b: bool)
        ensures
            b == is_terminal_status(self.status@),
    {
        is_one_of_terminal(self.status.as_str())
    }

    /// Whether this status is documented, or an alias the client
    /// recognises; novel statuses are not.
    pub fn is_known_status(&self) -> (b: bool)
        ensures
            b == is_known_status_text(self.status@),
    {
        let s = self.status.as_str();
        is_one_of_terminal(s) || text::str_eq(s, "ENQUEUED") || text::str_eq(s, "RUNNING")
            || text::str_eq(s, "CANCEL_REQUESTED")
    }

    /// Whether every accessible issue was processed successfully.
    pub fn is_success(&self) -> (b: bool)
        ensures
            b == self.failed_accessible_issues@.is_empty(),
    {
        self.failed_accessible_issues.is_empty()
    }
}

/// Per-issue error detail of a bulk task.
#[derive(Debug)]
pub struct BulkActionError {
    pub error_messages: Vec<String>,
    /// The field errors, when the server sent them as a JSON object: its
    /// `(field, error)` entries in the object's order, each error as its JSON
    /// text; `None` when it sent something else.
    pub errors: Option<Vec<(String, String)>>,
}

/// `key: value`.
pub open spec fn entry_text(e: (String, String)) -> Seq<char> {
    e.0@ + ": "@ + e.1@
}

/// The summary of an error: its messages joined by `; ` when it has any;
/// else its field errors as `key: value` joined by `; ` when there are
/// any; else `unknown error`.
pub open spec fn summary_text(messages: Seq<String>, entries: Option<Vec<(String, String)>>) -> Seq<
    char,
> {
    if messages.len() > 0 {
        text::join_seq(text::views(messages), "; "@)
    } else {
        match entries {
            Some(es) => if es@.len() > 0 {
                text::join_seq(es@.map_values(|e: (String, String)| entry_text(e)), "; "@)
            } else {
                "unknown error"@
            },
            None => "unknown error"@,
        }
    }
}

/// The summary of an error, given its messages and its field errors as
/// `(key, value)` pairs (`None` when they are not an object).
pub fn summarize_action_error(messages: &Vec<String>, entries: &Option<Vec<(String, String)>>) -> (r:
    String)
    ensures
        r@ == summary_text(messages@, *entries),
{
    if messages.len() > 0 {
        return text::join(messages, "; ");
    }
    match entries {
        Some(es) => {
            if es.len() == 0 {
                return String::from_str("unknown error");
            }
            let ghost target = es@.map_values(|e: (String, String)| entry_text(e));
            let mut parts: Vec<String> = Vec::new();
            let mut i: usize = 0;
            while i < es.len()
                invariant
                    i <= es@.len(),
                    target == es@.map_values(|e: (String, String)| entry_text(e)),
                    text::views(parts@) == target.take(i as int),
                decreases es@.len() - i,
            {
                let mut p = es[i].0.clone();
                p.append(": ");
                p.append(es[i].1.as_str());
                let ghost before = parts@;
                let ghost pv = p@;
                parts.push(p);
                assert(text::views(parts@) =~= text::views(before).push(pv));
                assert(target.take(i + 1) =~= target.take(i as int).push(pv));
                i = i + 1;
            }
            assert(target.take(es@.len() as int) =~= target);
            text::join(&parts, "; ")
        },
        None => String::from_str("unknown error"),
    }
}

impl BulkActionError {
    /// A human-readable summary of the error: its messages when it has any,
    /// else its field errors, else `unknown error`.
    pub fn summary(&self) -> (r: String)
        ensures
            r@ == summary_text(self.error_messages@, self.errors),
    {
        summarize_action_error(&self.error_messages, &self.errors)
    }
}

} // verus!

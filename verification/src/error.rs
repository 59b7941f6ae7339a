//! The tool's error type, its exit codes and its messages.
use vstd::prelude::*;

use crate::text;

verus! {

/// The transport error of the HTTP client.
#[verifier::external_type_specification]
#[verifier::external_body]
pub struct ExHttpError(reqwest::Error);

/// An operating-system I/O error.
#[verifier::external_type_specification]
#[verifier::external_body]
pub struct ExIoError(std::io::Error);

/// A JSON (de)serialisation error.
#[verifier::external_type_specification]
#[verifier::external_body]
pub struct ExJsonError(serde_json::Error);

/// Hint for Basic-auth (API-token) users who receive a 401 on a JSM path.
pub const API_TOKEN_EXPIRY_HINT: &'static str =
    "Your API token may be expired or revoked. Regenerate it at\nhttps://id.atlassian.com/manage-profile/security/api-tokens\nthen run `jr auth login` to re-store the credentials.";

/// Everything that can go wrong in a command, with the process exit code
/// and the message each case is reported with.
#[derive(Debug)]
pub enum JrError {
    NotAuthenticated { hint: String },
    InsufficientScope { message: String, required_scope: Option<String> },
    NetworkError(String),
    ApiError { status: u16, message: String },
    /// A caller-supplied deadline ran out (client side, no server response).
    DeadlineExceeded { remaining_ms: u64, message: String },
    ConfigError(String),
    UserError(String),
    /// An invariant violation: a bug in the tool.
    Internal(String),
    Interrupted,
    Http(reqwest::Error),
    Io(std::io::Error),
    Json(serde_json::Error),
}

/// The process exit code of an error: 2 for authentication and scope
/// problems, 78 for configuration errors, 64 for user errors, 130 for an
/// interrupt, 124 for an exceeded deadline, and 1 for everything else.
pub open spec fn exit_code_of(e: JrError) -> i32 {
    match e {
        JrError::NotAuthenticated { .. } => 2,
        JrError::InsufficientScope { .. } => 2,
        JrError::ConfigError(_) => 78,
        JrError::UserError(_) => 64,
        JrError::Interrupted => 130,
        JrError::DeadlineExceeded { .. } => 124,
        _ => 1,
    }
}

/// Law: what each kind of error exits with — 2 for a missing login or a
/// missing scope, 78 for a configuration problem, 64 for a usage error,
/// 130 for an interrupt, 124 for a deadline, and 1 for network, API,
/// internal, HTTP, I/O and JSON failures.
pub proof fn law_exit_codes(e: JrError)
    ensures
        e is NotAuthenticated ==> exit_code_of(e) == 2,
        e is InsufficientScope ==> exit_code_of(e) == 2,
        e is ConfigError ==> exit_code_of(e) == 78,
        e is UserError ==> exit_code_of(e) == 64,
        e is Interrupted ==> exit_code_of(e) == 130,
        e is DeadlineExceeded ==> exit_code_of(e) == 124,
        (e is NetworkError || e is ApiError || e is Internal || e is Http || e is Io || e is Json)
            ==> exit_code_of(e) == 1,
{
}

/// The scope named in the insufficient-scope workaround: the call site's
/// scope when one was given and is not empty, `write:jira-work` otherwise.
pub open spec fn scope_hint_of(required_scope: Option<String>) -> Seq<char> {
    match required_scope {
        Some(s) => if s@.len() > 0 {
            s@
        } else {
            "write:jira-work"@
        },
        None => "write:jira-work"@,
    }
}

/// The text of the insufficient-scope error.
pub open spec fn insufficient_scope_text(message: Seq<char>, scope_hint: Seq<char>) -> Seq<char> {
    "Insufficient token scope: "@ + message
        + "\n\nThe Atlassian API gateway rejects granular-scoped personal tokens on POST requests (while PUT/GET succeed). Workarounds:\n  • Use a classic token with \""@
        + scope_hint
        + "\" scope instead of granular scopes, or\n  • Try OAuth 2.0 (run \"jr auth login --oauth\") — may avoid this bug, not verified\n\nSee https://github.com/Zious11/jira-cli/issues/185 for details."@
}

/// The message an error is reported with. The errors of the HTTP client,
/// of I/O and of JSON are reported with their own messages, which are not
/// described here.
pub open spec fn message_of(e: JrError) -> Option<Seq<char>> {
    match e {
        JrError::NotAuthenticated { hint } => Some("Not authenticated. "@ + hint@),
        JrError::InsufficientScope { message, required_scope } => Some(
            insufficient_scope_text(message@, scope_hint_of(required_scope)),
        ),
        JrError::NetworkError(host) => Some(
            "Could not reach "@ + host@ + " — check your connection"@,
        ),
        JrError::ApiError { status, message } => Some(
            "API error ("@ + text::decimal(status as nat) + "): "@ + message@,
        ),
        JrError::DeadlineExceeded { message, .. } => Some("Deadline exceeded: "@ + message@),
        JrError::ConfigError(m) => Some(m@),
        JrError::UserError(m) => Some(m@),
        JrError::Internal(m) => Some(m@),
        JrError::Interrupted => Some("Interrupted"@),
        _ => None,
    }
}

/// The message of an HTTP client error (its `Display`).
///
/// Trusted: formats the error with `{}`; nothing is claimed of the text.
#[verifier::external_body]
fn http_error_text(e: &reqwest::Error) -> String {
    e.to_string()
}

/// The message of an I/O error (its `Display`).
///
/// Trusted: formats the error with `{}`; nothing is claimed of the text.
#[verifier::external_body]
fn io_error_text(e: &std::io::Error) -> String {
    e.to_string()
}

/// The message of a JSON error (its `Display`).
///
/// Trusted: formats the error with `{}`; nothing is claimed of the text.
#[verifier::external_body]
fn json_error_text(e: &serde_json::Error) -> String {
    e.to_string()
}

impl JrError {
    /// The process exit code for this error.
    pub fn exit_code(&self) -> (c: i32)
        ensures
            c == exit_code_of(*self),
            *self is NotAuthenticated ==> c == 2,
            *self is InsufficientScope ==> c == 2,
            *self is ConfigError ==> c == 78,
            *self is UserError ==> c == 64,
            *self is Interrupted ==> c == 130,
            *self is DeadlineExceeded ==> c == 124,
    {
        match self {
            JrError::NotAuthenticated { .. } => 2,
            JrError::InsufficientScope { .. } => 2,
            JrError::ConfigError(_) => 78,
            JrError::UserError(_) => 64,
            JrError::Interrupted => 130,
            JrError::DeadlineExceeded { .. } => 124,
            _ => 1,
        }
    }

    /// The message this error is reported with (what `Display` shows).
    pub fn message(&self) -> (r: String)
        ensures
            message_of(*self) matches Some(m) ==> r@ == m,
    {
        match self {
            JrError::NotAuthenticated { hint } => {
                let mut r = String::from_str("Not authenticated. ");
                r.append(hint.as_str());
                r
            },
            JrError::InsufficientScope { message, required_scope } => {
                let hint: &str = match required_scope {
                    Some(s) => if s.as_str().unicode_len() > 0 {
                        s.as_str()
                    } else {
                        "write:jira-work"
                    },
                    None => "write:jira-work",
                };
                let mut r = String::from_str("Insufficient token scope: ");
                r.append(message.as_str());
                r.append(
                    "\n\nThe Atlassian API gateway rejects granular-scoped personal tokens on POST requests (while PUT/GET succeed). Workarounds:\n  • Use a classic token with \"",
                );
                r.append(hint);
                r.append(
                    "\" scope instead of granular scopes, or\n  • Try OAuth 2.0 (run \"jr auth login --oauth\") — may avoid this bug, not verified\n\nSee https://github.com/Zious11/jira-cli/issues/185 for details.",
                );
                r
            },
            JrError::NetworkError(host) => {
                let mut r = String::from_str("Could not reach ");
                r.append(host.as_str());
                r.append(" — check your connection");
                r
            },
            JrError::ApiError { status, message } => {
                let mut r = String::from_str("API error (");
                let code = text::u64_to_string(*status as u64);
                r.append(code.as_str());
                r.append("): ");
                r.append(message.as_str());
                r
            },
            JrError::DeadlineExceeded { message, .. } => {
                let mut r = String::from_str("Deadline exceeded: ");
                r.append(message.as_str());
                r
            },
            JrError::ConfigError(m) => m.clone(),
            JrError::UserError(m) => m.clone(),
            JrError::Internal(m) => m.clone(),
            JrError::Interrupted => String::from_str("Interrupted"),
            JrError::Http(e) => http_error_text(e),
            JrError::Io(e) => io_error_text(e),
            JrError::Json(e) => json_error_text(e),
        }
    }
}

} // verus!

//! Errors of the library's operations.

use vstd::prelude::*;
use crate::text::{decimal, decimal_string};

verus! {

/// `std::io::Error`, held opaque.
#[verifier::external_type_specification]
#[verifier::external_body]
pub struct ExIoError(std::io::Error);

/// `serde_json::Error`, held opaque.
#[verifier::external_type_specification]
#[verifier::external_body]
pub struct ExJsonError(serde_json::Error);

/// What can go wrong when running a tool.
#[derive(Debug)]
pub enum CoreError {
    /// No `aiken.toml` at or above the given path.
    ProjectNotFound { path: String },
    /// The `aiken` executable could not be started.
    AikenNotInstalled,
    /// An `aiken` run that was required to succeed failed.
    AikenProcessFailed { exit_code: Option<i32>, stderr: String },
    /// Output that should have had a known shape did not.
    OutputParseFailed { context: String },
    /// An I/O operation failed.
    Io(std::io::Error),
    /// JSON could not be read or written.
    Serde(serde_json::Error),
    /// Any other failure, with its message.
    Other(String),
}

impl CoreError {
    /// An `Other` error carrying `msg`.
    pub fn other(msg: String) -> (e: CoreError)
        ensures
            e matches CoreError::Other(m) && m@ == msg@,
    {
        CoreError::Other(msg)
    }

    /// The error's message, as its `Display` would render it.
    pub fn message(&self) -> (s: String)
        ensures
            message_is(*self, s@),
    {
        match self {
            CoreError::ProjectNotFound { path } => {
                let mut s = String::from_str("aiken project not found at or above ");
                s.append(path.as_str());
                assert(s@ =~= "aiken project not found at or above "@ + path@);
                s
            },
            CoreError::AikenNotInstalled => String::from_str("aiken executable not available on PATH"),
            CoreError::AikenProcessFailed { exit_code, stderr } => {
                let mut s = String::from_str("aiken process failed (exit ");
                let code = exit_code_debug(*exit_code);
                s.append(code.as_str());
                s.append("): ");
                s.append(stderr.as_str());
                s
            },
            CoreError::OutputParseFailed { context } => {
                let mut s = String::from_str("could not parse aiken output as expected: ");
                s.append(context.as_str());
                s
            },
            CoreError::Io(e) => {
                let mut s = String::from_str("io error: ");
                let d = io_error_text(e);
                let ghost head = s@;
                s.append(d.as_str());
                assert(s@.take(head.len() as int) =~= head);
                s
            },
            CoreError::Serde(e) => {
                let mut s = String::from_str("serialization error: ");
                let d = json_error_text(e);
                let ghost head = s@;
                s.append(d.as_str());
                assert(s@.take(head.len() as int) =~= head);
                s
            },
            CoreError::Other(m) => m.clone(),
        }
    }
}

/// `s` is the message of `e` (for I/O and JSON errors: begins as their
/// messages do).
pub open spec fn message_is(e: CoreError, s: Seq<char>) -> bool {
    match e {
        CoreError::ProjectNotFound { path } => s == "aiken project not found at or above "@ + path@,
        CoreError::AikenNotInstalled => s == "aiken executable not available on PATH"@,
        CoreError::AikenProcessFailed { exit_code, stderr } => s == "aiken process failed (exit "@
            + debug_exit_code(exit_code) + "): "@ + stderr@,
        CoreError::OutputParseFailed { context } => s == "could not parse aiken output as expected: "@
            + context@,
        CoreError::Io(_) => has_prefix_str(s, "io error: "@),
        CoreError::Serde(_) => has_prefix_str(s, "serialization error: "@),
        CoreError::Other(m) => s == m@,
    }
}

/// `p` is a prefix of `s`.
pub open spec fn has_prefix_str(s: Seq<char>, p: Seq<char>) -> bool {
    p.len() <= s.len() && s.take(p.len() as int) == p
}

/// The `Debug` rendering of an `i32`: its decimal digits, with a `-` when
/// negative.
pub open spec fn signed_decimal(n: int) -> Seq<char> {
    if n < 0 {
        seq!['-'] + decimal((-n) as nat)
    } else {
        decimal(n as nat)
    }
}

/// The `Debug` rendering of an optional exit code: `Some(<n>)` or `None`.
pub open spec fn debug_exit_code(c: Option<i32>) -> Seq<char> {
    match c {
        Some(n) => "Some("@ + signed_decimal(n as int) + ")"@,
        None => "None"@,
    }
}

/// Renders an optional exit code as `{:?}` does.
pub fn exit_code_debug(c: Option<i32>) -> (s: String)
    ensures
        s@ == debug_exit_code(c),
{
    match c {
        Some(n) => {
            let mut s = String::from_str("Some(");
            if n < 0 {
                s.append("-");
                proof {
                    reveal_strlit("-");
                }
                let m: u64 = (0i64 - (n as i64)) as u64;
                let d = decimal_string(m);
                s.append(d.as_str());
            } else {
                let d = decimal_string(n as u64);
                s.append(d.as_str());
            }
            s.append(")");
            assert(s@ =~= debug_exit_code(c));
            s
        },
        None => String::from_str("None"),
    }
}

/// `std::io::Error`'s `Display`; nothing is claimed of the text.
#[verifier::external_body]
fn io_error_text(e: &std::io::Error) -> String {
    e.to_string()
}

/// `serde_json::Error`'s `Display`; nothing is claimed of the text.
#[verifier::external_body]
fn json_error_text(e: &serde_json::Error) -> String {
    e.to_string()
}

} // verus!

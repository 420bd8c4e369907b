//! Compiler diagnostics as surfaced to tool callers.

use vstd::prelude::*;

verus! {

/// How serious a diagnostic is.
#[derive(Debug, Clone, Copy, PartialEq, Eq, Structural)]
pub enum Severity {
    Error,
    Warning,
}

/// A region of a source file.
#[derive(Debug, Clone)]
pub struct SourceSpan {
    pub file: String,
    pub start_line: u32,
    pub start_column: u32,
    pub end_line: u32,
    pub end_column: u32,
}

/// One compiler message.
#[derive(Debug, Clone)]
pub struct Diagnostic {
    pub severity: Severity,
    pub message: String,
    pub span: Option<SourceSpan>,
    pub code: Option<String>,
}

impl Diagnostic {
    /// A diagnostic with only a severity and a message, as the output parsers
    /// produce it.
    pub open spec fn is_plain(self, severity: Severity, message: Seq<char>) -> bool {
        &&& self.severity == severity
        &&& self.message@ == message
        &&& self.span is None
        &&& self.code is None
    }

    /// Builds a diagnostic with no span and no code.
    pub fn plain(severity: Severity, message: String) -> (d: Diagnostic)
        ensures
            d.is_plain(severity, message@),
    {
        Diagnostic { severity, message, span: None, code: None }
    }
}

} // verus!

//! The tool handlers' requests, responses and the decisions they make.
//!
//! Each tool takes a request and answers with a response. Running the Aiken
//! CLI, the language server, ripgrep or an HTTP client is left to the
//! caller; what the handlers decide on the results is here.

use vstd::prelude::*;
use crate::corpus::CorpusHit;
use crate::diagnostic::{Diagnostic, Severity};
use crate::lsp::{Completion, Hover, Location};
use crate::paths::{joined, path_join};
use crate::project::ProjectRoot;
use crate::runner::{
    BuildOutcome, CheckOutcome, FmtOutcome, NewProjectOutcome, TestOutcome, UplcOutcome,
};
use crate::symbols::Symbol;
use crate::blueprint::Blueprint;

verus! {

/// Arguments of `aiken_check`.
#[derive(Debug, Clone)]
pub struct CheckRequest {
    /// Path inside (or to) an Aiken project; the root is discovered upward.
    pub path: String,
    /// Optional module filter passed to `aiken check -m`.
    pub module: Option<String>,
    /// Delete `<project>/build` before checking (for stale build state).
    pub clean: bool,
}

/// Answer of `aiken_check`.
#[derive(Debug, Clone)]
pub struct CheckResponse {
    pub outcome: CheckOutcome,
    pub project_root: String,
}

/// Arguments of `aiken_build`.
#[derive(Debug, Clone)]
pub struct BuildRequest {
    pub path: String,
}

/// Answer of `aiken_build`.
#[derive(Debug, Clone)]
pub struct BuildResponse {
    pub outcome: BuildOutcome,
    pub project_root: String,
}

/// Arguments of `aiken_test`.
#[derive(Debug, Clone)]
pub struct TestRequest {
    pub path: String,
    pub filter: Option<String>,
}

/// Answer of `aiken_test`.
#[derive(Debug, Clone)]
pub struct TestResponse {
    pub outcome: TestOutcome,
    pub project_root: String,
}

/// Arguments of `aiken_fmt`.
#[derive(Debug, Clone)]
pub struct FmtRequest {
    pub source: String,
}

/// Answer of `aiken_fmt`.
#[derive(Debug, Clone)]
pub struct FmtResponse {
    pub outcome: FmtOutcome,
}

/// Arguments of `aiken_pattern_search`.
#[derive(Debug, Clone)]
pub struct SearchRequest {
    pub query: String,
    pub max_hits: usize,
}

/// Answer of `aiken_pattern_search`.
#[derive(Debug, Clone)]
pub struct SearchResponse {
    pub hits: Vec<CorpusHit>,
}

/// The hit limit of a search or lookup that names none.
pub fn default_max_hits() -> (n: usize)
    ensures
        n == 20,
{
    20
}

/// Arguments of `aiken_docs`.
#[derive(Debug, Clone)]
pub struct DocsLookupRequest {
    /// Relative path under the docs base URL, e.g. `language-tour/types`.
    pub path: String,
}

/// Answer of `aiken_docs`.
#[derive(Debug, Clone)]
pub struct DocsLookupResponse {
    pub body: String,
}

/// Arguments of `aiken_hover`.
#[derive(Debug, Clone)]
pub struct HoverRequest {
    pub file: String,
    pub line: u32,
    pub column: u32,
}

/// Answer of `aiken_hover`.
#[derive(Debug, Clone)]
pub struct HoverResponse {
    pub hover: Option<Hover>,
}

/// Arguments of `aiken_completions`.
#[derive(Debug, Clone)]
pub struct CompletionsRequest {
    pub file: String,
    pub line: u32,
    pub column: u32,
}

/// Answer of `aiken_completions`.
#[derive(Debug, Clone)]
pub struct CompletionsResponse {
    pub items: Vec<Completion>,
}

/// Arguments of `aiken_definition`.
#[derive(Debug, Clone)]
pub struct DefinitionRequest {
    pub file: String,
    pub line: u32,
    pub column: u32,
}

/// Answer of `aiken_definition`.
#[derive(Debug, Clone)]
pub struct DefinitionResponse {
    pub locations: Vec<Location>,
}

/// Arguments of `aiken_budget`.
#[derive(Debug, Clone)]
pub struct BudgetRequest {
    pub path: String,
    pub filter: Option<String>,
}

/// Arguments of `aiken_symbol_lookup`.
#[derive(Debug, Clone)]
pub struct SymbolLookupRequest {
    pub query: String,
    pub max_hits: usize,
}

/// Answer of `aiken_symbol_lookup`.
#[derive(Debug, Clone)]
pub struct SymbolLookupResponse {
    pub symbols: Vec<Symbol>,
}

/// Arguments of `aiken_blueprint`.
#[derive(Debug, Clone)]
pub struct BlueprintRequest {
    pub path: String,
}

/// Answer of `aiken_blueprint`.
#[derive(Debug)]
pub struct BlueprintResponse {
    pub blueprint: Blueprint,
    pub project_root: String,
}

/// Arguments of `aiken_uplc`.
#[derive(Debug, Clone)]
pub struct UplcRequest {
    pub path: String,
    /// Path to a `.cbor` UPLC file or other artifact to decode.
    pub target: String,
}

/// Answer of `aiken_uplc`.
#[derive(Debug, Clone)]
pub struct UplcResponse {
    pub outcome: UplcOutcome,
    pub project_root: String,
}

/// Arguments of `aiken_new`.
#[derive(Debug, Clone)]
pub struct NewProjectRequest {
    pub parent_dir: String,
    pub name: String,
}

/// Answer of `aiken_new`.
#[derive(Debug, Clone)]
pub struct NewProjectResponse {
    pub outcome: NewProjectOutcome,
}

/// Answer of `aiken_version`.
#[derive(Debug, Clone)]
pub struct VersionResponse {
    pub version: String,
}

/// The build directory that a clean check removes: `<root>/build`.
pub fn build_dir(root: &ProjectRoot) -> (p: String)
    ensures
        p@ == joined(root.path(), "build"@),
{
    path_join(root.as_path().as_str(), "build")
}

/// The warning added when a check fails without any parsed diagnostic.
pub open spec fn silent_failure_note() -> Seq<char> {
    "aiken check failed but no diagnostics were parsed. Possible causes: stale build cache (retry with clean: true), stray .ak files outside lib/validators/ (e.g. benches.ak), or an unexpected aiken output format. See raw_stderr."@
}

/// A check outcome as reported: when the check failed but no diagnostic was
/// parsed, a warning saying so (with likely causes) is added; otherwise it
/// is left as it is.
pub fn note_silent_failure(outcome: CheckOutcome) -> (o: CheckOutcome)
    ensures
        (!outcome.success && outcome.diagnostics.len() == 0) ==> (o.diagnostics.len() == 1
            && o.diagnostics@[0].is_plain(Severity::Warning, silent_failure_note())
            && o.success == outcome.success && o.tests == outcome.tests && o.raw_stdout
            == outcome.raw_stdout && o.raw_stderr == outcome.raw_stderr && o.tx_mem_limit
            == outcome.tx_mem_limit && o.tx_cpu_limit == outcome.tx_cpu_limit),
        !(!outcome.success && outcome.diagnostics.len() == 0) ==> o == outcome,
{
    let mut outcome = outcome;
    if !outcome.success && outcome.diagnostics.len() == 0 {
        outcome.diagnostics.push(
            Diagnostic::plain(
                Severity::Warning,
                String::from_str(
                    "aiken check failed but no diagnostics were parsed. Possible causes: stale build cache (retry with clean: true), stray .ak files outside lib/validators/ (e.g. benches.ak), or an unexpected aiken output format. See raw_stderr.",
                ),
            ),
        );
    }
    outcome
}

/// The answer of `aiken_check` for a project root and its check outcome.
pub fn check_response(root: &ProjectRoot, outcome: CheckOutcome) -> (r: CheckResponse)
    ensures
        r.project_root@ == root.path(),
        (!outcome.success && outcome.diagnostics.len() == 0) ==> (r.outcome.diagnostics.len() == 1
            && r.outcome.diagnostics@[0].is_plain(Severity::Warning, silent_failure_note())
            && r.outcome.success == outcome.success && r.outcome.tests == outcome.tests
            && r.outcome.raw_stdout == outcome.raw_stdout && r.outcome.raw_stderr
            == outcome.raw_stderr && r.outcome.tx_mem_limit == outcome.tx_mem_limit
            && r.outcome.tx_cpu_limit == outcome.tx_cpu_limit),
        !(!outcome.success && outcome.diagnostics.len() == 0) ==> r.outcome == outcome,
{
    CheckResponse { outcome: note_silent_failure(outcome), project_root: root.as_path().clone() }
}

} // verus!

//! Arguments of the MCP tools as callers send them, and their conversion
//! into the handlers' requests.

use vstd::prelude::*;
use vstd::std_specs::convert::FromSpecImpl;
use crate::catalog::{CorpusListRequest, ExplainRequest};
use crate::tools::{
    BlueprintRequest, BudgetRequest, BuildRequest, CheckRequest, CompletionsRequest,
    DefinitionRequest, DocsLookupRequest, FmtRequest, HoverRequest, NewProjectRequest,
    SearchRequest, SymbolLookupRequest, TestRequest, UplcRequest,
};

verus! {

/// Arguments of `aiken_check`.
#[derive(Debug)]
pub struct CheckArgs {
    /// File path inside an Aiken project, or the project directory itself.
    pub path: String,
    pub module: Option<String>,
    /// Remove the project's build directory before checking (a retry for a
    /// stale build cache); callers that leave it out mean `false`.
    pub clean: bool,
}

impl From<CheckArgs> for CheckRequest {
    fn from(a: CheckArgs) -> (r: Self) {
        CheckRequest { path: a.path, module: a.module, clean: a.clean }
    }
}

impl FromSpecImpl<CheckArgs> for CheckRequest {
    open spec fn obeys_from_spec() -> bool {
        true
    }

    open spec fn from_spec(a: CheckArgs) -> Self {
        CheckRequest { path: a.path, module: a.module, clean: a.clean }
    }
}

/// Arguments of `aiken_build`.
#[derive(Debug)]
pub struct BuildArgs {
    pub path: String,
}

impl From<BuildArgs> for BuildRequest {
    fn from(a: BuildArgs) -> (r: Self) {
        BuildRequest { path: a.path }
    }
}

impl FromSpecImpl<BuildArgs> for BuildRequest {
    open spec fn obeys_from_spec() -> bool {
        true
    }

    open spec fn from_spec(a: BuildArgs) -> Self {
        BuildRequest { path: a.path }
    }
}

/// Arguments of `aiken_test`.
#[derive(Debug)]
pub struct TestArgs {
    pub path: String,
    pub filter: Option<String>,
}

impl From<TestArgs> for TestRequest {
    fn from(a: TestArgs) -> (r: Self) {
        TestRequest { path: a.path, filter: a.filter }
    }
}

impl FromSpecImpl<TestArgs> for TestRequest {
    open spec fn obeys_from_spec() -> bool {
        true
    }

    open spec fn from_spec(a: TestArgs) -> Self {
        TestRequest { path: a.path, filter: a.filter }
    }
}

/// Arguments of `aiken_fmt`.
#[derive(Debug)]
pub struct FmtArgs {
    pub source: String,
}

impl From<FmtArgs> for FmtRequest {
    fn from(a: FmtArgs) -> (r: Self) {
        FmtRequest { source: a.source }
    }
}

impl FromSpecImpl<FmtArgs> for FmtRequest {
    open spec fn obeys_from_spec() -> bool {
        true
    }

    open spec fn from_spec(a: FmtArgs) -> Self {
        FmtRequest { source: a.source }
    }
}

/// Arguments of `aiken_pattern_search`.
#[derive(Debug)]
pub struct SearchArgs {
    pub query: String,
    pub max_hits: usize,
}

impl From<SearchArgs> for SearchRequest {
    fn from(a: SearchArgs) -> (r: Self) {
        SearchRequest { query: a.query, max_hits: a.max_hits }
    }
}

impl FromSpecImpl<SearchArgs> for SearchRequest {
    open spec fn obeys_from_spec() -> bool {
        true
    }

    open spec fn from_spec(a: SearchArgs) -> Self {
        SearchRequest { query: a.query, max_hits: a.max_hits }
    }
}

/// Arguments of `aiken_docs`.
#[derive(Debug)]
pub struct DocsArgs {
    pub path: String,
}

impl From<DocsArgs> for DocsLookupRequest {
    fn from(a: DocsArgs) -> (r: Self) {
        DocsLookupRequest { path: a.path }
    }
}

impl FromSpecImpl<DocsArgs> for DocsLookupRequest {
    open spec fn obeys_from_spec() -> bool {
        true
    }

    open spec fn from_spec(a: DocsArgs) -> Self {
        DocsLookupRequest { path: a.path }
    }
}

/// A position in a file, for the LSP tools.
#[derive(Debug)]
pub struct PositionArgs {
    /// Absolute path to the .ak file.
    pub file: String,
    /// Zero-based line number.
    pub line: u32,
    /// Zero-based UTF-16 column.
    pub column: u32,
}

impl From<PositionArgs> for HoverRequest {
    fn from(a: PositionArgs) -> (r: Self) {
        HoverRequest { file: a.file, line: a.line, column: a.column }
    }
}

impl FromSpecImpl<PositionArgs> for HoverRequest {
    open spec fn obeys_from_spec() -> bool {
        true
    }

    open spec fn from_spec(a: PositionArgs) -> Self {
        HoverRequest { file: a.file, line: a.line, column: a.column }
    }
}

impl From<PositionArgs> for CompletionsRequest {
    fn from(a: PositionArgs) -> (r: Self) {
        CompletionsRequest { file: a.file, line: a.line, column: a.column }
    }
}

impl FromSpecImpl<PositionArgs> for CompletionsRequest {
    open spec fn obeys_from_spec() -> bool {
        true
    }

    open spec fn from_spec(a: PositionArgs) -> Self {
        CompletionsRequest { file: a.file, line: a.line, column: a.column }
    }
}

impl From<PositionArgs> for DefinitionRequest {
    fn from(a: PositionArgs) -> (r: Self) {
        DefinitionRequest { file: a.file, line: a.line, column: a.column }
    }
}

impl FromSpecImpl<PositionArgs> for DefinitionRequest {
    open spec fn obeys_from_spec() -> bool {
        true
    }

    open spec fn from_spec(a: PositionArgs) -> Self {
        DefinitionRequest { file: a.file, line: a.line, column: a.column }
    }
}

/// Arguments of `aiken_budget`.
#[derive(Debug)]
pub struct BudgetArgs {
    pub path: String,
    pub filter: Option<String>,
}

impl From<BudgetArgs> for BudgetRequest {
    fn from(a: BudgetArgs) -> (r: Self) {
        BudgetRequest { path: a.path, filter: a.filter }
    }
}

impl FromSpecImpl<BudgetArgs> for BudgetRequest {
    open spec fn obeys_from_spec() -> bool {
        true
    }

    open spec fn from_spec(a: BudgetArgs) -> Self {
        BudgetRequest { path: a.path, filter: a.filter }
    }
}

/// Arguments of `aiken_symbol_lookup`.
#[derive(Debug)]
pub struct SymbolLookupArgs {
    pub query: String,
    pub max_hits: usize,
}

impl From<SymbolLookupArgs> for SymbolLookupRequest {
    fn from(a: SymbolLookupArgs) -> (r: Self) {
        SymbolLookupRequest { query: a.query, max_hits: a.max_hits }
    }
}

impl FromSpecImpl<SymbolLookupArgs> for SymbolLookupRequest {
    open spec fn obeys_from_spec() -> bool {
        true
    }

    open spec fn from_spec(a: SymbolLookupArgs) -> Self {
        SymbolLookupRequest { query: a.query, max_hits: a.max_hits }
    }
}

/// Arguments of `aiken_blueprint`.
#[derive(Debug)]
pub struct BlueprintArgs {
    pub path: String,
}

impl From<BlueprintArgs> for BlueprintRequest {
    fn from(a: BlueprintArgs) -> (r: Self) {
        BlueprintRequest { path: a.path }
    }
}

impl FromSpecImpl<BlueprintArgs> for BlueprintRequest {
    open spec fn obeys_from_spec() -> bool {
        true
    }

    open spec fn from_spec(a: BlueprintArgs) -> Self {
        BlueprintRequest { path: a.path }
    }
}

/// Arguments of `aiken_uplc`.
#[derive(Debug)]
pub struct UplcArgs {
    pub path: String,
    /// Path to a CBOR/UPLC artifact to decode.
    pub target: String,
}

impl From<UplcArgs> for UplcRequest {
    fn from(a: UplcArgs) -> (r: Self) {
        UplcRequest { path: a.path, target: a.target }
    }
}

impl FromSpecImpl<UplcArgs> for UplcRequest {
    open spec fn obeys_from_spec() -> bool {
        true
    }

    open spec fn from_spec(a: UplcArgs) -> Self {
        UplcRequest { path: a.path, target: a.target }
    }
}

/// Arguments of `aiken_new`.
#[derive(Debug)]
pub struct NewProjectArgs {
    pub parent_dir: String,
    pub name: String,
}

impl From<NewProjectArgs> for NewProjectRequest {
    fn from(a: NewProjectArgs) -> (r: Self) {
        NewProjectRequest { parent_dir: a.parent_dir, name: a.name }
    }
}

impl FromSpecImpl<NewProjectArgs> for NewProjectRequest {
    open spec fn obeys_from_spec() -> bool {
        true
    }

    open spec fn from_spec(a: NewProjectArgs) -> Self {
        NewProjectRequest { parent_dir: a.parent_dir, name: a.name }
    }
}

/// Arguments of `aiken_explain`.
#[derive(Debug)]
pub struct ExplainArgs {
    pub error: String,
}

impl From<ExplainArgs> for ExplainRequest {
    fn from(a: ExplainArgs) -> (r: Self) {
        ExplainRequest { error: a.error }
    }
}

impl FromSpecImpl<ExplainArgs> for ExplainRequest {
    open spec fn obeys_from_spec() -> bool {
        true
    }

    open spec fn from_spec(a: ExplainArgs) -> Self {
        ExplainRequest { error: a.error }
    }
}

/// Arguments of `aiken_corpus_list`.
#[derive(Debug)]
pub struct CorpusListArgs {
    /// Optional case-insensitive tag filter.
    pub tag: Option<String>,
}

impl From<CorpusListArgs> for CorpusListRequest {
    fn from(a: CorpusListArgs) -> (r: Self) {
        CorpusListRequest { tag: a.tag }
    }
}

impl FromSpecImpl<CorpusListArgs> for CorpusListRequest {
    open spec fn obeys_from_spec() -> bool {
        true
    }

    open spec fn from_spec(a: CorpusListArgs) -> Self {
        CorpusListRequest { tag: a.tag }
    }
}

} // verus!

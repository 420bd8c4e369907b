//! Running the Aiken CLI: the arguments of each command and the outcome
//! that each run's output makes.
//!
//! Spawning the `aiken` process is left to the caller; the library builds
//! the argument lists and turns the captured exit status, stdout and stderr
//! into outcomes.

use vstd::prelude::*;
use crate::diagnostic::Diagnostic;
use crate::error::CoreError;
use crate::parse::{
    artifacts_of, diags_are, diags_of, no_message, parse_artifacts, parse_check, parse_test,
    string_views, test_views, tests_of,
};
use crate::text::{lines, opt_view, str_chars, string_from_chars, trim, trim_string};

verus! {

/// Cardano's per-transaction memory budget (mainnet), against which test
/// budgets are reported.
pub const TX_MEM_LIMIT: u64 = 14_000_000;

/// Cardano's per-transaction CPU budget (mainnet), against which test
/// budgets are reported.
pub const TX_CPU_LIMIT: u64 = 10_000_000_000;

/// One test reported by `aiken check`.
#[derive(Debug, Clone)]
pub struct TestResult {
    pub name: String,
    pub passed: bool,
    pub mem: Option<u64>,
    pub cpu: Option<u64>,
    pub message: Option<String>,
}

/// The outcome of `aiken check`.
#[derive(Debug, Clone)]
pub struct CheckOutcome {
    pub success: bool,
    pub diagnostics: Vec<Diagnostic>,
    pub tests: Vec<TestResult>,
    pub tx_mem_limit: u64,
    pub tx_cpu_limit: u64,
    pub raw_stdout: String,
    pub raw_stderr: String,
}

/// The outcome of `aiken build`.
#[derive(Debug, Clone)]
pub struct BuildOutcome {
    pub success: bool,
    pub diagnostics: Vec<Diagnostic>,
    pub artifacts: Vec<String>,
    pub raw_stdout: String,
    pub raw_stderr: String,
}

/// The outcome of running the tests with `aiken check`.
#[derive(Debug, Clone)]
pub struct TestOutcome {
    pub success: bool,
    pub tests: Vec<TestResult>,
    pub raw_stdout: String,
    pub raw_stderr: String,
}

/// The outcome of `aiken fmt --stdin`.
#[derive(Debug, Clone)]
pub struct FmtOutcome {
    pub success: bool,
    pub formatted_source: Option<String>,
    pub raw_stderr: String,
}

/// The outcome of `aiken uplc decode`.
#[derive(Debug, Clone)]
pub struct UplcOutcome {
    pub success: bool,
    pub uplc: String,
    pub raw_stderr: String,
}

/// The outcome of `aiken new`.
#[derive(Debug, Clone)]
pub struct NewProjectOutcome {
    pub success: bool,
    pub created_path: Option<String>,
    pub raw_stdout: String,
    pub raw_stderr: String,
}

/// What one run of the `aiken` process gave.
#[derive(Debug)]
pub struct RawCommand {
    pub success: bool,
    pub exit_code: Option<i32>,
    pub stdout: String,
    pub stderr: String,
}

/// Runs Aiken commands with the `aiken` binary at a configurable path.
#[derive(Debug, Clone)]
pub struct AikenCliRunner {
    binary: String,
}

impl AikenCliRunner {
    /// The binary this runner starts.
    pub closed spec fn binary_path(&self) -> Seq<char> {
        self.binary@
    }

    /// A runner that finds `aiken` on `PATH`.
    pub fn new() -> (r: Self)
        ensures
            r.binary_path() == "aiken"@,
    {
        AikenCliRunner { binary: String::from_str("aiken") }
    }

    /// A runner that starts the given binary.
    pub fn with_binary(binary: String) -> (r: Self)
        ensures
            r.binary_path() == binary@,
    {
        AikenCliRunner { binary }
    }

    /// The binary this runner starts.
    pub fn binary(&self) -> (r: &String)
        ensures
            r@ == self.binary_path(),
    {
        &self.binary
    }
}

/// The arguments of `aiken check`, with `-m <filter>` when a module filter
/// is given.
pub open spec fn check_arguments(filter: Option<Seq<char>>) -> Seq<Seq<char>> {
    match filter {
        Some(f) => seq!["check"@, "-m"@, f],
        None => seq!["check"@],
    }
}

/// Builds the arguments of `aiken check` (also used to run the tests).
pub fn check_args(filter: Option<&str>) -> (r: Vec<String>)
    ensures
        string_views(r@) == check_arguments(
            match filter {
                Some(f) => Some(f@),
                None => None,
            },
        ),
{
    let mut args: Vec<String> = Vec::new();
    args.push(String::from_str("check"));
    if let Some(f) = filter {
        args.push(String::from_str("-m"));
        args.push(f.to_owned());
    }
    assert(string_views(args@) =~= check_arguments(
        match filter {
            Some(f) => Some(f@),
            None => None,
        },
    ));
    args
}

/// The outcome of an `aiken check` run: its success, the diagnostics and
/// test results its output carries, the transaction budget limits, and the
/// raw output.
pub fn check_outcome(raw: RawCommand) -> (o: CheckOutcome)
    ensures
        o.success == raw.success,
        diags_are(o.diagnostics@, diags_of(lines(raw.stdout@) + lines(raw.stderr@))),
        test_views(o.tests@) == tests_of(lines(raw.stdout@)),
        no_message(o.tests@),
        o.tx_mem_limit == TX_MEM_LIMIT,
        o.tx_cpu_limit == TX_CPU_LIMIT,
        o.raw_stdout == raw.stdout,
        o.raw_stderr == raw.stderr,
{
    let diagnostics = parse_check(raw.stdout.as_str(), raw.stderr.as_str());
    let tests = parse_test(raw.stdout.as_str());
    CheckOutcome {
        success: raw.success,
        diagnostics,
        tests,
        tx_mem_limit: TX_MEM_LIMIT,
        tx_cpu_limit: TX_CPU_LIMIT,
        raw_stdout: raw.stdout,
        raw_stderr: raw.stderr,
    }
}

/// The arguments of `aiken build`.
pub fn build_args() -> (r: Vec<String>)
    ensures
        string_views(r@) == seq!["build"@],
{
    let mut args: Vec<String> = Vec::new();
    args.push(String::from_str("build"));
    assert(string_views(args@) =~= seq!["build"@]);
    args
}

/// The outcome of an `aiken build` run: its success, diagnostics, the
/// artifact lines of stdout, and the raw output.
pub fn build_outcome(raw: RawCommand) -> (o: BuildOutcome)
    ensures
        o.success == raw.success,
        diags_are(o.diagnostics@, diags_of(lines(raw.stdout@) + lines(raw.stderr@))),
        string_views(o.artifacts@) == artifacts_of(lines(raw.stdout@)),
        o.raw_stdout == raw.stdout,
        o.raw_stderr == raw.stderr,
{
    let diagnostics = parse_check(raw.stdout.as_str(), raw.stderr.as_str());
    let artifacts = parse_artifacts(raw.stdout.as_str());
    BuildOutcome {
        success: raw.success,
        diagnostics,
        artifacts,
        raw_stdout: raw.stdout,
        raw_stderr: raw.stderr,
    }
}

/// The outcome of a test run: its success, the `PASS`/`FAIL` results of
/// stdout, and the raw output.
pub fn test_outcome(raw: RawCommand) -> (o: TestOutcome)
    ensures
        o.success == raw.success,
        test_views(o.tests@) == tests_of(lines(raw.stdout@)),
        no_message(o.tests@),
        o.raw_stdout == raw.stdout,
        o.raw_stderr == raw.stderr,
{
    let tests = parse_test(raw.stdout.as_str());
    TestOutcome { success: raw.success, tests, raw_stdout: raw.stdout, raw_stderr: raw.stderr }
}

/// The arguments of `aiken fmt --stdin`.
pub fn fmt_args() -> (r: Vec<String>)
    ensures
        string_views(r@) == seq!["fmt"@, "--stdin"@],
{
    let mut args: Vec<String> = Vec::new();
    args.push(String::from_str("fmt"));
    args.push(String::from_str("--stdin"));
    assert(string_views(args@) =~= seq!["fmt"@, "--stdin"@]);
    args
}

/// The outcome of a formatter run: on success the formatted source is its
/// stdout, otherwise there is none.
pub fn fmt_outcome(raw: RawCommand) -> (o: FmtOutcome)
    ensures
        o.success == raw.success,
        raw.success ==> o.formatted_source == Some(raw.stdout),
        !raw.success ==> o.formatted_source is None,
        o.raw_stderr == raw.stderr,
{
    FmtOutcome {
        success: raw.success,
        formatted_source: if raw.success {
            Some(raw.stdout)
        } else {
            None
        },
        raw_stderr: raw.stderr,
    }
}

/// The arguments of `aiken uplc decode <target>`.
pub fn uplc_args(target: &str) -> (r: Vec<String>)
    ensures
        string_views(r@) == seq!["uplc"@, "decode"@, target@],
{
    let mut args: Vec<String> = Vec::new();
    args.push(String::from_str("uplc"));
    args.push(String::from_str("decode"));
    args.push(target.to_owned());
    assert(string_views(args@) =~= seq!["uplc"@, "decode"@, target@]);
    args
}

/// The outcome of a UPLC decode run: the decoded program is its stdout.
pub fn uplc_outcome(raw: RawCommand) -> (o: UplcOutcome)
    ensures
        o.success == raw.success,
        o.uplc == raw.stdout,
        o.raw_stderr == raw.stderr,
{
    UplcOutcome { success: raw.success, uplc: raw.stdout, raw_stderr: raw.stderr }
}

/// The arguments of `aiken new <name>`.
pub fn new_project_args(name: &str) -> (r: Vec<String>)
    ensures
        string_views(r@) == seq!["new"@, name@],
{
    let mut args: Vec<String> = Vec::new();
    args.push(String::from_str("new"));
    args.push(name.to_owned());
    assert(string_views(args@) =~= seq!["new"@, name@]);
    args
}

/// `s` without its trailing `c` characters (`trim_end_matches`).
pub open spec fn trim_end_char(s: Seq<char>, c: char) -> Seq<char>
    decreases s.len(),
{
    if s.len() > 0 && s.last() == c {
        trim_end_char(s.drop_last(), c)
    } else {
        s
    }
}

/// Where `aiken new <name>` run in `parent_dir` creates the project.
pub open spec fn created_path(parent_dir: Seq<char>, name: Seq<char>) -> Seq<char> {
    trim_end_char(parent_dir, '/') + seq!['/'] + name
}

/// The outcome of an `aiken new` run: on success, the created project's
/// path `<parent_dir without trailing slashes>/<name>`.
pub fn new_project_outcome(parent_dir: &str, name: &str, raw: RawCommand) -> (o: NewProjectOutcome)
    ensures
        o.success == raw.success,
        raw.success ==> opt_view(o.created_path) == Some(created_path(parent_dir@, name@)),
        !raw.success ==> o.created_path is None,
        o.raw_stdout == raw.stdout,
        o.raw_stderr == raw.stderr,
{
    let created = if raw.success {
        let p = str_chars(parent_dir);
        let mut end = p.len();
        assert(p@.take(p.len() as int) =~= p@);
        while end > 0 && p[end - 1] == '/'
            invariant
                end <= p.len(),
                trim_end_char(p@, '/') == trim_end_char(p@.take(end as int), '/'),
            decreases end,
        {
            assert(p@.take(end as int).drop_last() =~= p@.take(end - 1));
            end = end - 1;
        }
        let mut v = crate::text::slice_of(&p, 0, end);
        assert(v@ =~= p@.take(end as int));
        v.push('/');
        let n = str_chars(name);
        crate::text::append_chars(&mut v, &n);
        proof {
            assert(p@.take(p.len() as int) =~= p@);
        }
        Some(string_from_chars(v.as_slice()))
    } else {
        None
    };
    NewProjectOutcome {
        success: raw.success,
        created_path: created,
        raw_stdout: raw.stdout,
        raw_stderr: raw.stderr,
    }
}

/// The arguments of `aiken --version`.
pub fn version_args() -> (r: Vec<String>)
    ensures
        string_views(r@) == seq!["--version"@],
{
    let mut args: Vec<String> = Vec::new();
    args.push(String::from_str("--version"));
    assert(string_views(args@) =~= seq!["--version"@]);
    args
}

/// The version that `aiken --version` reported (its stdout, trimmed), or the
/// failed run as an error.
pub fn version_result(raw: RawCommand) -> (r: Result<String, CoreError>)
    ensures
        raw.success ==> (r matches Ok(v) && v@ == trim(raw.stdout@)),
        !raw.success ==> (r matches Err(CoreError::AikenProcessFailed { exit_code, stderr })
            && exit_code == raw.exit_code && stderr == raw.stderr),
{
    if !raw.success {
        return Err(CoreError::AikenProcessFailed { exit_code: raw.exit_code, stderr: raw.stderr });
    }
    Ok(trim_string(raw.stdout.as_str()))
}

} // verus!

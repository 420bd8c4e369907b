use aiken_mcp::diagnostic::Severity;
use aiken_mcp::error::CoreError;
use aiken_mcp::runner::{
    build_args, build_outcome, check_args, check_outcome, fmt_args, fmt_outcome, new_project_args,
    new_project_outcome, test_outcome, uplc_args, uplc_outcome, version_args, version_result,
    AikenCliRunner, RawCommand, TX_CPU_LIMIT, TX_MEM_LIMIT,
};

fn raw(success: bool, stdout: &str, stderr: &str) -> RawCommand {
    RawCommand { success, exit_code: Some(if success { 0 } else { 1 }), stdout: stdout.to_string(), stderr: stderr.to_string() }
}

#[test]
fn runner_binary() {
    assert_eq!(AikenCliRunner::new().binary(), "aiken");
    assert_eq!(AikenCliRunner::with_binary("/opt/aiken".to_string()).binary(), "/opt/aiken");
}

#[test]
fn command_arguments() {
    assert_eq!(check_args(None), vec!["check"]);
    assert_eq!(check_args(Some("foo")), vec!["check", "-m", "foo"]);
    assert_eq!(build_args(), vec!["build"]);
    assert_eq!(fmt_args(), vec!["fmt", "--stdin"]);
    assert_eq!(uplc_args("a.cbor"), vec!["uplc", "decode", "a.cbor"]);
    assert_eq!(new_project_args("me/proj"), vec!["new", "me/proj"]);
    assert_eq!(version_args(), vec!["--version"]);
}

#[test]
fn check_outcome_parses_output() {
    let o = check_outcome(raw(false, "PASS t1\nerror: boom\n", "warning: w\n"));
    assert!(!o.success);
    assert_eq!(o.diagnostics.len(), 2);
    assert_eq!(o.diagnostics[1].severity, Severity::Warning);
    assert_eq!(o.tests.len(), 1);
    assert_eq!(o.tx_mem_limit, TX_MEM_LIMIT);
    assert_eq!(o.tx_cpu_limit, TX_CPU_LIMIT);
    assert_eq!(o.raw_stderr, "warning: w\n");
}

#[test]
fn build_and_test_outcomes() {
    let b = build_outcome(raw(true, "  Generated plutus.json\n", ""));
    assert_eq!(b.artifacts, vec!["Generated plutus.json"]);
    let t = test_outcome(raw(true, "FAIL t2\n", ""));
    assert!(!t.tests[0].passed);
}

#[test]
fn fmt_and_uplc_outcomes() {
    assert_eq!(fmt_outcome(raw(true, "src", "")).formatted_source.as_deref(), Some("src"));
    assert!(fmt_outcome(raw(false, "src", "err")).formatted_source.is_none());
    assert_eq!(uplc_outcome(raw(true, "(program 1.0.0 ...)", "")).uplc, "(program 1.0.0 ...)");
}

#[test]
fn new_project_path() {
    let o = new_project_outcome("/home/me//", "acme/proj", raw(true, "", ""));
    assert_eq!(o.created_path.as_deref(), Some("/home/me/acme/proj"));
    assert!(new_project_outcome("/x", "y", raw(false, "", "")).created_path.is_none());
}

#[test]
fn version_is_trimmed_or_failure() {
    assert_eq!(version_result(raw(true, "aiken v1.1.0\n", "")).unwrap(), "aiken v1.1.0");
    match version_result(RawCommand { success: false, exit_code: Some(-2), stdout: String::new(), stderr: "bad".to_string() }) {
        Err(e) => {
            assert!(matches!(e, CoreError::AikenProcessFailed { .. }));
            assert_eq!(e.message(), "aiken process failed (exit Some(-2)): bad");
        }
        Ok(_) => panic!("expected an error"),
    }
}

#[test]
fn error_messages() {
    assert_eq!(CoreError::ProjectNotFound { path: "/x".to_string() }.message(), "aiken project not found at or above /x");
    assert_eq!(CoreError::AikenNotInstalled.message(), "aiken executable not available on PATH");
    assert_eq!(CoreError::AikenProcessFailed { exit_code: None, stderr: "e".to_string() }.message(), "aiken process failed (exit None): e");
    assert_eq!(CoreError::OutputParseFailed { context: "c".to_string() }.message(), "could not parse aiken output as expected: c");
    assert_eq!(CoreError::other("plain".to_string()).message(), "plain");
    let io = CoreError::Io(std::io::Error::new(std::io::ErrorKind::Other, "disk"));
    assert_eq!(io.message(), "io error: disk");
}

#[test]
fn json_error_message_carries_the_parser_text() {
    let e = serde_json::from_str::<u32>("nope").unwrap_err();
    let text = e.to_string();
    let m = CoreError::Serde(e).message();
    assert_eq!(m, format!("serialization error: {}", text));
}

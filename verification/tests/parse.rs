use aiken_mcp::diagnostic::Severity;
use aiken_mcp::parse::{parse_artifacts, parse_check, parse_test};

#[test]
fn parses_error_line() {
    let out = parse_check("error: undefined variable foo\n", "");
    assert_eq!(out.len(), 1);
    assert_eq!(out[0].severity, Severity::Error);
    assert!(out[0].message.contains("undefined variable foo"));
}

#[test]
fn parses_warning_line() {
    let out = parse_check("", "warning: unused import\n");
    assert_eq!(out.len(), 1);
    assert_eq!(out[0].severity, Severity::Warning);
}

#[test]
fn ignores_unrelated_lines() {
    let out = parse_check("Compiling foo\n", "");
    assert!(out.is_empty());
}

#[test]
fn parses_test_pass_fail() {
    let stdout = "PASS test_one\nsome other line\nFAIL test_two\n";
    let tests = parse_test(stdout);
    assert_eq!(tests.len(), 2);
    assert!(tests[0].passed);
    assert!(!tests[1].passed);
    assert_eq!(tests[0].name, "test_one");
    assert_eq!(tests[1].name, "test_two");
}

#[test]
fn diagnostic_message_is_trimmed_and_indent_ignored() {
    let out = parse_check("   error:   bad thing   \r\n", "");
    assert_eq!(out.len(), 1);
    assert_eq!(out[0].message, "bad thing");
    assert!(out[0].span.is_none());
    assert!(out[0].code.is_none());
}

#[test]
fn stdout_diagnostics_come_before_stderr_ones() {
    let out = parse_check("warning: a\nerror: b\n", "error: c\n");
    assert_eq!(out.len(), 3);
    assert_eq!(out[0].severity, Severity::Warning);
    assert_eq!(out[0].message, "a");
    assert_eq!(out[1].message, "b");
    assert_eq!(out[2].message, "c");
}

#[test]
fn tag_must_start_the_line() {
    let out = parse_check("note error: x\nERROR: y\n", "");
    assert!(out.is_empty());
}

#[test]
fn test_name_is_first_word() {
    let tests = parse_test("  PASS my_test [mem: 10, cpu: 20]  \nFAIL\n");
    assert_eq!(tests.len(), 1);
    assert_eq!(tests[0].name, "my_test");
    assert_eq!(tests[0].mem, Some(10));
    assert_eq!(tests[0].cpu, Some(20));
    assert!(tests[0].message.is_none());
}

#[test]
fn budget_block_before_the_name() {
    let tests = parse_test("PASS [mem: 31772, cpu: 11128537] list_push\nFAIL [mem:  5,cpu:7] other\n");
    assert_eq!(tests.len(), 2);
    assert_eq!(tests[0].name, "list_push");
    assert!(tests[0].passed);
    assert_eq!(tests[0].mem, Some(31772));
    assert_eq!(tests[0].cpu, Some(11128537));
    assert_eq!(tests[1].name, "other");
    assert!(!tests[1].passed);
    assert_eq!(tests[1].mem, Some(5));
    assert_eq!(tests[1].cpu, Some(7));
}

#[test]
fn budget_missing_or_unreadable_gives_none() {
    let tests = parse_test("PASS plain\nPASS [mem: 2.32 K, cpu: 1.06 M] scaled\nPASS [cpu: 1, mem: 2] swapped\n");
    assert_eq!(tests.len(), 3);
    assert_eq!(tests[0].name, "plain");
    assert_eq!(tests[1].name, "scaled");
    assert_eq!(tests[2].name, "swapped");
    for t in &tests {
        assert!(t.mem.is_none());
        assert!(t.cpu.is_none());
    }
}

#[test]
fn budget_too_large_for_u64_gives_none() {
    let tests = parse_test("PASS [mem: 18446744073709551616, cpu: 1] big\n");
    assert_eq!(tests[0].name, "big");
    assert!(tests[0].mem.is_none());
}

#[test]
fn artifacts_are_trimmed_plutus_lines() {
    let arts = parse_artifacts("Compiling\n  Generating plutus.json  \nDone\n");
    assert_eq!(arts, vec!["Generating plutus.json".to_string()]);
}

#[test]
fn no_artifacts_without_plutus_json() {
    assert!(parse_artifacts("Compiling foo\nplutus.jso\n").is_empty());
}

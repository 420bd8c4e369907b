use aiken_mcp::error::CoreError;
use aiken_mcp::project::{manifest_path, search_dirs, select_root, Project, ProjectRoot};
use aiken_mcp::tools::{build_dir, check_response, default_max_hits, CheckRequest};
use aiken_mcp::args::CheckArgs;
use aiken_mcp::runner::{check_outcome, RawCommand};
use aiken_mcp::diagnostic::Severity;

#[test]
fn search_walks_up_to_the_root() {
    assert_eq!(search_dirs("/a/b", false), vec!["/a/b", "/a", "/"]);
    assert_eq!(search_dirs("/a/b/file.ak", true), vec!["/a/b", "/a", "/"]);
    assert_eq!(manifest_path("/a"), "/a/aiken.toml");
}

#[test]
fn nearest_manifest_wins() {
    let dirs = search_dirs("/a/b/c", false);
    let root = select_root("/a/b/c", &dirs, &vec![false, true, true, false]).unwrap();
    assert_eq!(root.as_path(), "/a/b");
}

#[test]
fn discover_errors_when_missing() {
    let dirs = search_dirs("/tmp/x", false);
    let flags = vec![false; dirs.len()];
    let err = select_root("/tmp/x", &dirs, &flags).unwrap_err();
    assert!(matches!(err, CoreError::ProjectNotFound { .. }));
}

#[test]
fn project_holds_its_root() {
    let p = Project::new(ProjectRoot::new("/p".to_string()));
    assert_eq!(p.root.as_path(), "/p");
    assert_eq!(build_dir(&p.root), "/p/build");
    assert_eq!(default_max_hits(), 20);
}

#[test]
fn silent_check_failure_gets_a_note() {
    let root = ProjectRoot::new("/p".to_string());
    let failed = check_outcome(RawCommand { success: false, exit_code: Some(1), stdout: String::new(), stderr: "panic".to_string() });
    let r = check_response(&root, failed);
    assert_eq!(r.project_root, "/p");
    assert_eq!(r.outcome.diagnostics.len(), 1);
    assert_eq!(r.outcome.diagnostics[0].severity, Severity::Warning);
    assert!(r.outcome.diagnostics[0].message.contains("clean: true"));
    let ok = check_outcome(RawCommand { success: true, exit_code: Some(0), stdout: String::new(), stderr: String::new() });
    assert!(check_response(&root, ok).outcome.diagnostics.is_empty());
}

#[test]
fn discover_finds_aiken_toml_in_parent() {
    // The manifest sits in /tmp/root; discovery starts two levels below it.
    let dirs = search_dirs("/tmp/root/a/b", false);
    let found: Vec<bool> = dirs.iter().map(|d| manifest_path(d) == "/tmp/root/aiken.toml").collect();
    let root = select_root("/tmp/root/a/b", &dirs, &found).unwrap();
    assert_eq!(root.as_path(), "/tmp/root");
}

#[test]
fn roots_compare_by_path() {
    let a = ProjectRoot::new("/p/q".to_string());
    assert_eq!(a.as_path(), "/p/q");
    assert!(a == ProjectRoot::new("/p/q".to_string()));
    assert!(a != ProjectRoot::new("/p".to_string()));
    assert_eq!(a.duplicate(), a);
}

#[test]
fn silent_failure_keeps_the_outcome() {
    let root = ProjectRoot::new("/p".to_string());
    let failed = check_outcome(RawCommand { success: false, exit_code: Some(1), stdout: "PASS t\n".to_string(), stderr: "boom".to_string() });
    let r = check_response(&root, failed);
    assert!(!r.outcome.success);
    assert_eq!(r.outcome.raw_stdout, "PASS t\n");
    assert_eq!(r.outcome.raw_stderr, "boom");
    assert_eq!(r.outcome.tests.len(), 1);
    assert_eq!(r.outcome.tests[0].name, "t");
}

#[test]
fn check_args_carry_clean() {
    let r: CheckRequest = CheckArgs { path: "/p".to_string(), module: None, clean: true }.into();
    assert!(r.clean);
    assert_eq!(r.path, "/p");
    let r: CheckRequest = CheckArgs { path: "/p".to_string(), module: Some("m".to_string()), clean: false }.into();
    assert!(!r.clean);
    assert_eq!(r.module.as_deref(), Some("m"));
}

#[test]
fn joining_adds_one_separator() {
    assert_eq!(manifest_path("/a/"), "/a/aiken.toml");
    assert_eq!(manifest_path(""), "aiken.toml");
    assert_eq!(build_dir(&ProjectRoot::new("rel".to_string())), "rel/build");
}

use aiken_mcp::corpus::{collect_rg_hits, parse_rg_line, rg_args, search_hits, split_path_list, RipgrepCorpus};

#[test]
fn parses_rg_line() {
    let line = "/x/foo.ak:42:fn bar() -> Bool { True }";
    let hit = parse_rg_line(line, "/x").unwrap();
    assert_eq!(hit.line, 42);
    assert_eq!(hit.file, "/x/foo.ak");
    assert!(hit.snippet.contains("fn bar"));
}

#[test]
fn rg_line_keeps_colons_in_snippet() {
    let hit = parse_rg_line("a.ak:7:let x: Int = 1", "/root").unwrap();
    assert_eq!(hit.corpus, "/root");
    assert_eq!(hit.file, "a.ak");
    assert_eq!(hit.line, 7);
    assert_eq!(hit.snippet, "let x: Int = 1");
}

#[test]
fn rg_line_rejects_bad_shapes() {
    assert!(parse_rg_line("no colons here", "/r").is_none());
    assert!(parse_rg_line("a.ak:12", "/r").is_none());
    assert!(parse_rg_line("a.ak:x1:text", "/r").is_none());
    assert!(parse_rg_line("a.ak:4294967296:text", "/r").is_none());
    assert_eq!(parse_rg_line("a.ak:+5:t", "/r").unwrap().line, 5);
}

#[test]
fn hits_stop_at_the_limit() {
    let mut hits = Vec::new();
    collect_rg_hits(&mut hits, "a.ak:1:x\ngarbage\nb.ak:2:y\nc.ak:3:z\n", "/r", 2);
    assert_eq!(hits.len(), 2);
    assert_eq!(hits[1].file, "b.ak");
    collect_rg_hits(&mut hits, "d.ak:4:w\n", "/r", 2);
    assert_eq!(hits.len(), 2);
}

#[test]
fn from_env_parses_colon_paths() {
    assert_eq!(split_path_list("/a:/b:/c").len(), 3);
}

#[test]
fn path_list_drops_empty_entries() {
    assert_eq!(split_path_list("::/a::/b:"), vec!["/a".to_string(), "/b".to_string()]);
    assert!(split_path_list("").is_empty());
}

#[test]
fn rg_arguments() {
    let args = rg_args("fn bar", 20, "/x");
    assert_eq!(
        args,
        vec!["--no-heading", "--with-filename", "--line-number", "--glob", "*.ak", "--max-count", "20", "--", "fn bar", "/x"]
    );
}

#[test]
fn corpus_keeps_its_roots() {
    let c = RipgrepCorpus::new(vec!["/a".to_string()]);
    assert_eq!(c.roots(), &vec!["/a".to_string()]);
}

#[test]
fn search_takes_roots_in_order_up_to_the_limit() {
    let runs = vec![
        ("/a".to_string(), "/a/x.ak:1:one\nnoise\n/a/y.ak:2:two\n".to_string()),
        ("/b".to_string(), "/b/z.ak:3:three\n".to_string()),
    ];
    let all = search_hits(&runs, 10);
    assert_eq!(all.len(), 3);
    assert_eq!(all[0].file, "/a/x.ak");
    assert_eq!(all[1].line, 2);
    assert_eq!(all[2].file, "/b/z.ak");
    let two = search_hits(&runs, 2);
    assert_eq!(two.len(), 2);
    assert_eq!(two[1].snippet, "two");
    assert!(search_hits(&Vec::new(), 5).is_empty());
}

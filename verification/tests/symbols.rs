use aiken_mcp::symbols::{
    extract_symbols, matches_query, symbol_from_decl, FileWalkSymbolIndex, ParseRegexes, Symbol, SymbolKind,
};

fn extract_from(source: &str) -> Vec<Symbol> {
    let regexes = ParseRegexes::new().unwrap();
    extract_symbols(source, &regexes, "test", "test.ak")
}

#[test]
fn captures_single_line_doc() {
    let symbols = extract_from("/// Add two ints.\npub fn add(a: Int, b: Int) -> Int { a + b }\n");
    assert_eq!(symbols.len(), 1);
    assert_eq!(symbols[0].doc.as_deref(), Some("Add two ints."));
}

#[test]
fn captures_multi_line_doc() {
    let symbols = extract_from("/// First line.\n/// Second line.\npub fn add() {}\n");
    assert_eq!(symbols[0].doc.as_deref(), Some("First line.\nSecond line."));
}

#[test]
fn blank_line_resets_doc() {
    let symbols = extract_from("/// Stale doc.\n\npub fn add() {}\n");
    assert!(symbols[0].doc.is_none());
}

#[test]
fn non_decl_line_resets_doc() {
    let symbols = extract_from("/// Stale doc.\nlet x = 1\npub fn add() {}\n");
    assert!(symbols[0].doc.is_none());
}

#[test]
fn ignores_module_docs() {
    let symbols = extract_from("//// Module-level doc.\npub fn add() {}\n");
    assert!(symbols[0].doc.is_none());
}

#[test]
fn captures_validator_with_doc() {
    let symbols = extract_from("/// Bridge validator.\nvalidator bridge { ... }\n");
    assert_eq!(symbols[0].kind, SymbolKind::Validator);
    assert_eq!(symbols[0].doc.as_deref(), Some("Bridge validator."));
}

#[test]
fn handles_consecutive_decls() {
    let symbols = extract_from("/// First.\npub fn one() {}\n/// Second.\npub fn two() {}\n");
    assert_eq!(symbols.len(), 2);
    assert_eq!(symbols[0].doc.as_deref(), Some("First."));
    assert_eq!(symbols[1].doc.as_deref(), Some("Second."));
}

#[test]
fn pub_const_and_pub_type_captured() {
    let symbols =
        extract_from("/// Tau.\npub const tau: Int = 6\n/// Foo type.\npub type Foo { x: Int }\n");
    assert_eq!(symbols.len(), 2);
    assert!(matches!(symbols[0].kind, SymbolKind::Const));
    assert!(matches!(symbols[1].kind, SymbolKind::Type));
}

#[test]
fn symbol_fields_are_filled() {
    let symbols = extract_from("\n  pub fn add(a: Int) -> Int { a }  \nfn private() {}\n");
    assert_eq!(symbols.len(), 1);
    let s = &symbols[0];
    assert_eq!(s.name, "add");
    assert_eq!(s.kind, SymbolKind::Fn);
    assert_eq!(s.signature, "pub fn add(a: Int) -> Int { a }");
    assert_eq!(s.line, 2);
    assert_eq!(s.module, "test");
    assert_eq!(s.file, "test.ak");
}

#[test]
fn doc_marker_drops_one_space_only() {
    let symbols = extract_from("///   indented\n///tight\npub type T = Int\n");
    assert_eq!(symbols[0].doc.as_deref(), Some("  indented\ntight"));
}

#[test]
fn lookup_matches_name_or_doc_ignoring_case() {
    let symbols = extract_from(
        "/// Verify a Merkle proof against a known root.\npub fn verify(proof: List<ByteArray>) -> Bool { True }\npub fn add() {}\n",
    );
    assert!(matches_query(&symbols[0], "merkle"));
    assert!(matches_query(&symbols[0], "verif"));
    assert!(!matches_query(&symbols[1], "merkle"));
    assert!(matches_query(&symbols[1], "add"));
}

#[test]
fn lookup_file_collects_matches_up_to_the_limit() {
    let regexes = ParseRegexes::new().unwrap();
    let text = "pub fn add_one() {}\npub fn add_two() {}\npub fn sub() {}\npub fn add_three() {}\n";
    let mut hits = Vec::new();
    FileWalkSymbolIndex::lookup_file(&mut hits, &regexes, "add", "/root", "/root/math/ops.ak", text, 2);
    assert_eq!(hits.len(), 2);
    assert_eq!(hits[0].name, "add_one");
    assert_eq!(hits[1].name, "add_two");
    assert_eq!(hits[0].module, "math/ops");
    assert_eq!(hits[0].file, "/root/math/ops.ak");
}

#[test]
fn lookup_file_skips_non_aiken_files() {
    let regexes = ParseRegexes::new().unwrap();
    let mut hits = Vec::new();
    FileWalkSymbolIndex::lookup_file(&mut hits, &regexes, "add", "/root", "/root/README.md", "pub fn add() {}\n", 10);
    assert!(hits.is_empty());
}

#[test]
fn index_keeps_its_roots() {
    let idx = FileWalkSymbolIndex::new(vec!["/a".to_string(), "/b".to_string()]);
    assert_eq!(idx.roots().len(), 2);
    assert!(FileWalkSymbolIndex::new(Vec::new()).roots().is_empty());
}

#[test]
fn lookup_matches_name() {
    let regexes = ParseRegexes::new().unwrap();
    let mut hits = Vec::new();
    FileWalkSymbolIndex::lookup_file(
        &mut hits,
        &regexes,
        "add",
        "/tmp/corpus",
        "/tmp/corpus/foo.ak",
        "pub fn add(a: Int, b: Int) -> Int { a + b }\n",
        10,
    );
    assert_eq!(hits.len(), 1);
    assert_eq!(hits[0].name, "add");
}

#[test]
fn lookup_matches_doc_text() {
    let regexes = ParseRegexes::new().unwrap();
    let mut hits = Vec::new();
    FileWalkSymbolIndex::lookup_file(
        &mut hits,
        &regexes,
        "merkle",
        "/tmp/corpus",
        "/tmp/corpus/foo.ak",
        "/// Verify a Merkle proof against a known root.\npub fn verify(proof: List<ByteArray>) -> Bool { True }\n",
        10,
    );
    assert_eq!(hits.len(), 1);
    assert_eq!(hits[0].name, "verify");
    assert!(hits[0].doc.as_deref().unwrap().contains("Merkle"));
}

#[test]
fn empty_when_no_roots() {
    let idx = FileWalkSymbolIndex::new(Vec::new());
    assert!(idx.roots().is_empty());
}

#[test]
fn symbol_from_a_found_declaration() {
    let doc = vec!["Adds.".chars().collect::<Vec<char>>(), "Twice.".chars().collect()];
    let s = symbol_from_decl(Some(("add".to_string(), SymbolKind::Fn)), "  pub fn add(a)  ", 7, "m/n", "lib/m/n.ak", &doc).unwrap();
    assert_eq!(s.name, "add");
    assert_eq!(s.kind, SymbolKind::Fn);
    assert_eq!(s.signature, "pub fn add(a)");
    assert_eq!(s.line, 7);
    assert_eq!(s.module, "m/n");
    assert_eq!(s.file, "lib/m/n.ak");
    assert_eq!(s.doc.as_deref(), Some("Adds.\nTwice."));
    assert!(symbol_from_decl(None, "pub fn add(a)", 1, "m", "f", &doc).is_none());
    let bare = symbol_from_decl(Some(("T".to_string(), SymbolKind::Type)), "pub type T", 2, "m", "f", &Vec::new()).unwrap();
    assert!(bare.doc.is_none());
}

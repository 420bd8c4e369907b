use aiken_mcp::catalog::{
    compile_explainers, default_max, explain_from_answers, handle_corpus_list, handle_explain, handle_pattern_catalog,
    matches_query, CorpusEntry, CorpusListRequest, ExplainRequest, ExplainerEntry, Pattern,
    PatternCatalogRequest,
};

fn pattern(name: &str, title: &str, keywords: &[&str]) -> Pattern {
    Pattern {
        name: name.to_string(),
        title: title.to_string(),
        description: "desc".to_string(),
        keywords: keywords.iter().map(|k| k.to_string()).collect(),
        refs: Vec::new(),
        gotchas: None,
        alternatives: None,
    }
}

fn catalog() -> Vec<Pattern> {
    vec![
        pattern("merkle-proof", "Merkle proofs", &["hash"]),
        pattern("one-shot-mint", "One-shot minting policy", &["nft", "Utxo"]),
        pattern("state-thread", "State thread token", &["utxo"]),
    ]
}

#[test]
fn pattern_query_matches_fields_and_keywords() {
    let p = pattern("a", "B title", &["KeyWord"]);
    assert!(matches_query(&p, "keyword"));
    assert!(matches_query(&p, "b ti"));
    assert!(!matches_query(&p, "zzz"));
}

#[test]
fn catalog_by_name_is_exact_ignoring_case() {
    let req = PatternCatalogRequest { name: Some("MERKLE-PROOF".to_string()), query: None, max_hits: 0 };
    let r = handle_pattern_catalog(catalog(), req);
    assert_eq!(r.patterns.len(), 1);
    assert_eq!(r.patterns[0].name, "merkle-proof");
    let req = PatternCatalogRequest { name: Some("merkle".to_string()), query: Some("merkle".to_string()), max_hits: 20 };
    assert!(handle_pattern_catalog(catalog(), req).patterns.is_empty());
}

#[test]
fn catalog_by_query_is_filtered_and_truncated() {
    let req = PatternCatalogRequest { name: None, query: Some("UTXO".to_string()), max_hits: 20 };
    let r = handle_pattern_catalog(catalog(), req);
    assert_eq!(r.patterns.len(), 2);
    assert_eq!(r.patterns[0].name, "one-shot-mint");
    let req = PatternCatalogRequest { name: None, query: None, max_hits: 2 };
    assert_eq!(handle_pattern_catalog(catalog(), req).patterns.len(), 2);
    assert_eq!(default_max(), 20);
}

fn entry(name: &str, tags: &[&str]) -> CorpusEntry {
    CorpusEntry {
        name: name.to_string(),
        url: format!("https://github.com/x/{}", name),
        author: "x".to_string(),
        tags: tags.iter().map(|t| t.to_string()).collect(),
        description: None,
        notes: None,
    }
}

#[test]
fn corpus_list_filters_by_tag_ignoring_case() {
    let all = vec![entry("stdlib", &["Patterns"]), entry("dex", &["dex", "amm"]), entry("bridge", &[])];
    let r = handle_corpus_list(all.clone(), CorpusListRequest { tag: Some("patterns".to_string()) });
    assert_eq!(r.entries.len(), 1);
    assert_eq!(r.entries[0].name, "stdlib");
    let r = handle_corpus_list(all, CorpusListRequest { tag: None });
    assert_eq!(r.entries.len(), 3);
}

fn explainer(pattern: &str, title: &str) -> ExplainerEntry {
    ExplainerEntry {
        pattern: pattern.to_string(),
        title: title.to_string(),
        explanation: format!("about {}", title),
        fix: Some("fix it".to_string()),
    }
}

#[test]
fn explain_first_match_wins_and_bad_patterns_are_dropped() {
    let compiled = compile_explainers(vec![
        explainer("(unclosed", "broken"),
        explainer("unknown variable", "first"),
        explainer("variable", "second"),
    ]);
    assert_eq!(compiled.len(), 2);
    let r = handle_explain(&compiled, ExplainRequest { error: "error: unknown variable foo".to_string() });
    let hit = r.matched.unwrap();
    assert_eq!(hit.title, "first");
    assert_eq!(hit.explanation, "about first");
    assert_eq!(hit.fix.as_deref(), Some("fix it"));
    let r = handle_explain(&compiled, ExplainRequest { error: "type mismatch".to_string() });
    assert!(r.matched.is_none());
}

#[test]
fn first_yes_answer_wins() {
    let compiled = compile_explainers(vec![explainer("a", "A"), explainer("b", "B"), explainer("c", "C")]);
    let r = explain_from_answers(&compiled, &vec![false, true, true]);
    let hit = r.matched.unwrap();
    assert_eq!(hit.title, "B");
    assert_eq!(hit.explanation, "about B");
    assert_eq!(hit.fix.as_deref(), Some("fix it"));
    assert!(explain_from_answers(&compiled, &vec![false, false, false]).matched.is_none());
}

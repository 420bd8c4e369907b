use aiken_mcp::lsp::{
    completions_from_reply, definition_locations, doc_to_string, file_url, hover_from_reply,
    hover_to_markdown, CompletionEntry, CompletionReply, DefinitionReply, DocText, HoverBody,
    LspLocation, MarkedText, RequestIds,
};

#[test]
fn hover_markdown_forms() {
    assert_eq!(hover_to_markdown(&HoverBody::Markup("**x**".to_string())), "**x**");
    let code = MarkedText::Code { language: "aiken".to_string(), value: "fn f() {}".to_string() };
    assert_eq!(hover_to_markdown(&HoverBody::Scalar(code.clone())), "```aiken\nfn f() {}\n```");
    let arr = HoverBody::Array(vec![MarkedText::Plain("a".to_string()), code]);
    assert_eq!(hover_to_markdown(&arr), "a\n\n```aiken\nfn f() {}\n```");
    let h = hover_from_reply(Some(HoverBody::Markup("m".to_string()))).unwrap();
    assert_eq!(h.markdown, "m");
    assert!(h.range.is_none());
    assert!(hover_from_reply(None).is_none());
}

#[test]
fn documentation_text() {
    assert_eq!(doc_to_string(DocText::Plain("p".to_string())), "p");
    assert_eq!(doc_to_string(DocText::Markup("m".to_string())), "m");
}

#[test]
fn completions_flatten_replies() {
    let e = CompletionEntry {
        label: "foo".to_string(),
        kind: Some("Function".to_string()),
        detail: None,
        documentation: Some(DocText::Markup("docs".to_string())),
    };
    let cs = completions_from_reply(Some(CompletionReply::List(vec![e.clone(), e])));
    assert_eq!(cs.len(), 2);
    assert_eq!(cs[0].label, "foo");
    assert_eq!(cs[0].kind.as_deref(), Some("Function"));
    assert_eq!(cs[0].doc.as_deref(), Some("docs"));
    assert!(completions_from_reply(None).is_empty());
}

#[test]
fn definitions_flatten_replies() {
    let l = LspLocation { path: "/p/a.ak".to_string(), line: 3, character: 4 };
    let one = definition_locations(Some(DefinitionReply::Scalar(l.clone())));
    assert_eq!(one.len(), 1);
    assert_eq!(one[0].file, "/p/a.ak");
    assert_eq!(one[0].line, 3);
    assert_eq!(one[0].column, 4);
    assert_eq!(definition_locations(Some(DefinitionReply::Link(vec![l.clone(), l]))).len(), 2);
    assert!(definition_locations(None).is_empty());
}

#[test]
fn file_urls() {
    assert_eq!(file_url("/tmp/foo.ak").unwrap(), "file:///tmp/foo.ak");
    let err = file_url("relative/foo.ak").unwrap_err();
    assert_eq!(err.message(), "could not convert path to URL: relative/foo.ak");
}

#[test]
fn request_ids_count_up_from_one() {
    let mut ids = RequestIds::new();
    assert_eq!(ids.next_id(), 1);
    assert_eq!(ids.next_id(), 2);
    assert_eq!(ids.next_id(), 3);
}

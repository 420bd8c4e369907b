use aiken_mcp::docs::{after_body, after_cache, after_request, cache_path, default_docs_base, docs_url, hex, DocsAction};

#[test]
fn hex_is_lowercase_two_digits_per_byte() {
    assert_eq!(hex(&[0x00, 0x0f, 0xa5, 0xff]), "000fa5ff");
    assert_eq!(hex(&[]), "");
}

#[test]
fn url_joins_with_one_slash() {
    assert_eq!(docs_url("https://aiken-lang.org/", "/language-tour/types"), "https://aiken-lang.org/language-tour/types");
    assert_eq!(docs_url("https://aiken-lang.org", "language-tour"), "https://aiken-lang.org/language-tour");
    assert_eq!(docs_url("https://x.org//", "//a"), "https://x.org/a");
}

#[test]
fn cache_path_is_sha256_of_the_url() {
    // sha256("abc")
    assert_eq!(
        cache_path("/cache", "abc"),
        "/cache/ba7816bf8f01cfea414140de5dae2223b00361a396177a9cb410ff61f20015ad.cache"
    );
    assert_eq!(cache_path("/c", "u"), cache_path("/c", "u"));
    assert_ne!(cache_path("/c", "u"), cache_path("/c", "v"));
}

#[test]
fn default_base() {
    assert_eq!(default_docs_base(), "https://aiken-lang.org");
}

#[test]
fn cached_page_is_answered_without_a_request() {
    match after_cache("https://x/p".to_string(), Some("cached body".to_string())) {
        DocsAction::Finish(Ok(b)) => assert_eq!(b, "cached body"),
        _ => panic!("expected the cached body"),
    }
    match after_cache("https://x/p".to_string(), None) {
        DocsAction::Get(u) => assert_eq!(u, "https://x/p"),
        _ => panic!("expected a request"),
    }
}

#[test]
fn request_outcomes() {
    match after_request("https://x/p", Err("timeout".to_string())) {
        DocsAction::Finish(Err(e)) => assert_eq!(e.message(), "docs fetch failed: timeout"),
        _ => panic!("expected an error"),
    }
    match after_request("https://x/p", Ok((false, "404 Not Found".to_string()))) {
        DocsAction::Finish(Err(e)) => assert_eq!(e.message(), "docs fetch returned 404 Not Found: https://x/p"),
        _ => panic!("expected an error"),
    }
    assert!(matches!(after_request("https://x/p", Ok((true, "200 OK".to_string()))), DocsAction::ReadBody));
}

#[test]
fn body_outcomes() {
    match after_body("/c/f.cache".to_string(), Ok("page".to_string())) {
        DocsAction::Store(f, b) => {
            assert_eq!(f, "/c/f.cache");
            assert_eq!(b, "page");
        }
        _ => panic!("expected a store"),
    }
    match after_body("/c/f.cache".to_string(), Err("reset".to_string())) {
        DocsAction::Finish(Err(e)) => assert_eq!(e.message(), "docs read failed: reset"),
        _ => panic!("expected an error"),
    }
}

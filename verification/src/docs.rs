//! The docs fetcher's addressing: page URLs and the on-disk cache key.
//!
//! Each fetched page is cached in `<cache_dir>/<sha256(url) in hex>.cache`,
//! so a repeated lookup of the same URL reads the same file.

use vstd::prelude::*;
use sha2::{Digest, Sha256};
use vstd::utf8::encode_utf8;
use crate::paths::{joined, path_join};
use crate::runner::trim_end_char;
use crate::text::{str_chars, string_from_chars, slice_of, append_chars};
use crate::error::CoreError;

verus! {

/// The SHA-256 digest of `data`.
pub uninterp spec fn sha256(data: Seq<u8>) -> Seq<u8>;

/// `sha2::Sha256::digest`. The contract names the digest and states its
/// size, 32 bytes, which the hasher's output type fixes.
#[verifier::external_body]
fn sha256_digest(data: &[u8]) -> (r: Vec<u8>)
    ensures
        r@ == sha256(data@),
        r@.len() == 32,
{
    Sha256::digest(data).to_vec()
}

/// The lowercase hexadecimal digit of a value below 16.
pub open spec fn hex_digit(v: nat) -> char {
    if v < 10 {
        ((v + '0' as nat) as u32) as char
    } else {
        ((v - 10 + 'a' as nat) as u32) as char
    }
}

/// Two lowercase hexadecimal digits per byte, most significant first
/// (`{:02x}` of each byte).
pub open spec fn hex_of(bytes: Seq<u8>) -> Seq<char>
    decreases bytes.len(),
{
    if bytes.len() == 0 {
        Seq::empty()
    } else {
        hex_of(bytes.drop_last()) + seq![
            hex_digit((bytes.last() / 16) as nat),
            hex_digit((bytes.last() % 16) as nat),
        ]
    }
}

/// The hex digit for a value below 16.
fn hex_char(v: u8) -> (c: char)
    requires
        v < 16,
    ensures
        c == hex_digit(v as nat),
{
    if v < 10 {
        (v + 48) as char
    } else {
        (v - 10 + 97) as char
    }
}

/// Lowercase hex encoding of `bytes`.
pub fn hex(bytes: &[u8]) -> (s: String)
    ensures
        s@ == hex_of(bytes@),
        s@.len() == 2 * bytes@.len(),
{
    let mut v: Vec<char> = Vec::new();
    for i in 0..bytes.len()
        invariant
            v@ == hex_of(bytes@.take(i as int)),
            v@.len() == 2 * i,
    {
        let b = bytes[i];
        assert(bytes@.take(i + 1).drop_last() =~= bytes@.take(i as int));
        v.push(hex_char(b / 16));
        v.push(hex_char(b % 16));
        assert(v@ =~= hex_of(bytes@.take(i + 1)));
    }
    assert(bytes@.take(bytes.len() as int) =~= bytes@);
    string_from_chars(v.as_slice())
}

/// The cache file for a page URL: `<cache_dir>/<hex sha256 of the URL's
/// UTF-8 bytes>.cache`.
pub open spec fn cache_file(cache_dir: Seq<char>, key: Seq<char>) -> Seq<char> {
    joined(cache_dir, hex_of(sha256(encode_utf8(key))) + ".cache"@)
}

/// The cache file for a page URL.
pub fn cache_path(cache_dir: &str, key: &str) -> (p: String)
    ensures
        p@ == cache_file(cache_dir@, key@),
{
    let digest = sha256_digest(key.as_bytes());
    let mut name = hex(digest.as_slice());
    name.append(".cache");
    path_join(cache_dir, name.as_str())
}

/// `s` without its leading `c` characters (`trim_start_matches`).
pub open spec fn trim_start_char(s: Seq<char>, c: char) -> Seq<char>
    decreases s.len(),
{
    if s.len() > 0 && s[0] == c {
        trim_start_char(s.drop_first(), c)
    } else {
        s
    }
}

/// The URL of a docs page: the base without trailing slashes, a slash, and
/// the page path without leading slashes.
pub open spec fn page_url(base: Seq<char>, path: Seq<char>) -> Seq<char> {
    trim_end_char(base, '/') + seq!['/'] + trim_start_char(path, '/')
}

/// The URL of the docs page at `path` under `base`.
pub fn docs_url(base: &str, path: &str) -> (u: String)
    ensures
        u@ == page_url(base@, path@),
{
    let b = str_chars(base);
    let mut end = b.len();
    assert(b@.take(b.len() as int) =~= b@);
    while end > 0 && b[end - 1] == '/'
        invariant
            end <= b.len(),
            trim_end_char(b@, '/') == trim_end_char(b@.take(end as int), '/'),
        decreases end,
    {
        assert(b@.take(end as int).drop_last() =~= b@.take(end - 1));
        end = end - 1;
    }
    let p = str_chars(path);
    let mut start: usize = 0;
    assert(p@.skip(0) =~= p@);
    while start < p.len() && p[start] == '/'
        invariant
            start <= p.len(),
            trim_start_char(p@, '/') == trim_start_char(p@.skip(start as int), '/'),
        decreases p.len() - start,
    {
        assert(p@.skip(start as int).drop_first() =~= p@.skip(start + 1));
        start = start + 1;
    }
    let mut v = slice_of(&b, 0, end);
    assert(v@ =~= b@.take(end as int));
    v.push('/');
    let rest = slice_of(&p, start, p.len());
    assert(rest@ =~= p@.skip(start as int));
    append_chars(&mut v, &rest);
    string_from_chars(v.as_slice())
}

/// The docs site used when none is configured.
pub fn default_docs_base() -> (s: String)
    ensures
        s@ == "https://aiken-lang.org"@,
{
    String::from_str("https://aiken-lang.org")
}

/// Slashes where the base and the page path meet do not change the URL, so
/// a page asked for with or without them is fetched from, and cached
/// under, the same address.
pub proof fn law_page_url_ignores_seam_slashes(base: Seq<char>, path: Seq<char>)
    ensures
        page_url(base + seq!['/'], path) == page_url(base, path),
        page_url(base, seq!['/'] + path) == page_url(base, path),
{
    let b = base + seq!['/'];
    assert(b.drop_last() =~= base);
    assert(trim_end_char(b, '/') == trim_end_char(base, '/'));
    let p = seq!['/'] + path;
    assert(p.drop_first() =~= path);
    assert(trim_start_char(p, '/') == trim_start_char(path, '/'));
}

// ---------------------------------------------------------------------------
// Fetching a page: the decisions between the cache, the network and the reply
// ---------------------------------------------------------------------------

/// What the fetcher does next.
pub enum DocsAction {
    /// Request the page at this URL.
    Get(String),
    /// Read the response body.
    ReadBody,
    /// Write this body to this cache file, then answer with the body.
    Store(String, String),
    /// Answer the lookup.
    Finish(Result<String, CoreError>),
}

/// Where a lookup goes after reading its cache file (`cached` holds the
/// file's text when it could be read): a cached page is the answer, with no
/// request made; otherwise the page at `url` is requested.
pub fn after_cache(url: String, cached: Option<String>) -> (a: DocsAction)
    ensures
        match cached {
            Some(body) => a matches DocsAction::Finish(Ok(b)) && b == body,
            None => a matches DocsAction::Get(u) && u == url,
        },
{
    match cached {
        Some(body) => DocsAction::Finish(Ok(body)),
        None => DocsAction::Get(url),
    }
}

/// Where a lookup goes after its request: when the request could not be
/// sent (`Err` with the transport's message), the answer is the error
/// `docs fetch failed: <message>`; when the server answered with a status
/// other than success (`Ok((false, status))`), the answer is the error
/// `docs fetch returned <status>: <url>`; on success the body is read next.
pub fn after_request(url: &str, sent: Result<(bool, String), String>) -> (a: DocsAction)
    ensures
        match sent {
            Err(e) => a matches DocsAction::Finish(Err(CoreError::Other(m)))
                && m@ == "docs fetch failed: "@ + e@,
            Ok((false, status)) => a matches DocsAction::Finish(Err(CoreError::Other(m)))
                && m@ == "docs fetch returned "@ + status@ + ": "@ + url@,
            Ok((true, _)) => a is ReadBody,
        },
{
    match sent {
        Err(e) => {
            let mut m = String::from_str("docs fetch failed: ");
            m.append(e.as_str());
            DocsAction::Finish(Err(CoreError::other(m)))
        },
        Ok((ok, status)) => {
            if ok {
                DocsAction::ReadBody
            } else {
                let mut m = String::from_str("docs fetch returned ");
                m.append(status.as_str());
                m.append(": ");
                m.append(url);
                DocsAction::Finish(Err(CoreError::other(m)))
            }
        },
    }
}

/// Where a lookup goes after reading the response body: a body read is
/// stored in the lookup's cache file (and then answered); a failed read
/// answers `docs read failed: <message>`.
pub fn after_body(cache_file: String, read: Result<String, String>) -> (a: DocsAction)
    ensures
        match read {
            Ok(body) => a matches DocsAction::Store(f, b) && f == cache_file && b == body,
            Err(e) => a matches DocsAction::Finish(Err(CoreError::Other(m)))
                && m@ == "docs read failed: "@ + e@,
        },
{
    match read {
        Ok(body) => DocsAction::Store(cache_file, body),
        Err(e) => {
            let mut m = String::from_str("docs read failed: ");
            m.append(e.as_str());
            DocsAction::Finish(Err(CoreError::other(m)))
        },
    }
}

} // verus!

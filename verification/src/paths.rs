//! File-system paths, held as strings, and the `std::path` operations the
//! library applies to them.
//!
//! Each operation is a call of one `std::path` method. `Path::join` is
//! stated in full; the other results are named, since `Path`'s component
//! rules take pages to state.

use vstd::prelude::*;
use std::path::Path;
use crate::text::{opt_view, join, str_chars, string_from_chars, join_chars, char_lines};

verus! {

/// `Path::parent`: the path without its final component.
pub uninterp spec fn parent_of(p: Seq<char>) -> Option<Seq<char>>;

/// `Path::strip_prefix`: `file` relative to `root`, when `root` is a prefix of
/// it component by component.
pub uninterp spec fn relative_path(file: Seq<char>, root: Seq<char>) -> Option<Seq<char>>;

/// `Path::with_extension("")`: the path with its extension removed.
pub uninterp spec fn without_extension(p: Seq<char>) -> Seq<char>;

/// `Path::components`, each rendered as text.
pub uninterp spec fn components_of(p: Seq<char>) -> Seq<Seq<char>>;

/// `Path::extension`: the extension of the final component, if any.
pub uninterp spec fn extension_of(p: Seq<char>) -> Option<Seq<char>>;

/// `Path::join` on Unix: a child that starts with `/` (an absolute path)
/// replaces the base; otherwise the child follows the base after one `/`,
/// which is left out when the base is empty or already ends in `/`.
pub open spec fn joined(base: Seq<char>, child: Seq<char>) -> Seq<char> {
    if child.len() > 0 && child[0] == '/' {
        child
    } else if base.len() == 0 || base.last() == '/' {
        base + child
    } else {
        base + seq!['/'] + child
    }
}

/// `Path::parent`. Beyond naming the result, the contract states what the
/// documentation gives: a parent drops the final component, so it is
/// shorter than the path.
#[verifier::external_body]
pub(crate) fn path_parent(p: &str) -> (r: Option<String>)
    ensures
        opt_view(r) == parent_of(p@),
        r matches Some(q) ==> q@.len() < p@.len(),
{
    Path::new(p).parent().map(|q| q.to_string_lossy().into_owned())
}

/// `Path::strip_prefix`; the result is named, not stated.
#[verifier::external_body]
pub(crate) fn path_strip_prefix(file: &str, root: &str) -> (r: Option<String>)
    ensures
        opt_view(r) == relative_path(file@, root@),
{
    Path::new(file).strip_prefix(root).ok().map(|q| q.to_string_lossy().into_owned())
}

/// `Path::with_extension("")`; the result is named, not stated.
#[verifier::external_body]
pub(crate) fn path_without_extension(p: &str) -> (r: String)
    ensures
        r@ == without_extension(p@),
{
    Path::new(p).with_extension("").to_string_lossy().into_owned()
}

/// `Path::components`, each rendered with `to_string_lossy`; the result is
/// named, not stated.
#[verifier::external_body]
pub(crate) fn path_components(p: &str) -> (r: Vec<Vec<char>>)
    ensures
        char_lines(r@) == components_of(p@),
{
    Path::new(p).components().map(|c| c.as_os_str().to_string_lossy().chars().collect()).collect()
}

/// `Path::extension`; the result is named, not stated.
#[verifier::external_body]
pub(crate) fn path_extension(p: &str) -> (r: Option<String>)
    ensures
        opt_view(r) == extension_of(p@),
{
    Path::new(p).extension().map(|e| e.to_string_lossy().into_owned())
}

/// `Path::join` on Unix, as `joined` states it: an absolute child replaces
/// the base, a relative one is appended after a separator where one is
/// needed. No normalisation takes place.
#[verifier::external_body]
pub(crate) fn path_join(base: &str, child: &str) -> (r: String)
    ensures
        r@ == joined(base@, child@),
{
    Path::new(base).join(child).to_string_lossy().into_owned()
}

/// The module path of `file` under `root`: its components relative to the
/// root (or all of them, when it is not under the root), without the
/// extension, joined by `/`.
pub open spec fn module_name(root: Seq<char>, file: Seq<char>) -> Seq<char> {
    let rel = match relative_path(file, root) {
        Some(r) => r,
        None => file,
    };
    join(components_of(without_extension(rel)), seq!['/'])
}

/// Derives the module path of `file` under `root`, e.g. `aiken/list` for
/// `<root>/aiken/list.ak`.
pub fn derive_module(root: &str, file: &str) -> (m: String)
    ensures
        m@ == module_name(root@, file@),
{
    let rel = match path_strip_prefix(file, root) {
        Some(r) => r,
        None => file.to_owned(),
    };
    let stem = path_without_extension(rel.as_str());
    let parts = path_components(stem.as_str());
    let slash = str_chars("/");
    proof {
        reveal_strlit("/");
        assert(slash@ =~= seq!['/']);
    }
    string_from_chars(join_chars(&parts, &slash).as_slice())
}

/// The extension that marks an Aiken source file.
pub open spec fn ak_extension() -> Seq<char> {
    seq!['a', 'k']
}

/// Whether `path` names an Aiken source file (extension `ak`).
pub fn is_ak_file(path: &str) -> (b: bool)
    ensures
        b == (extension_of(path@) == Some(ak_extension())),
{
    match path_extension(path) {
        Some(e) => {
            let ak = String::from_str("ak");
            proof {
                reveal_strlit("ak");
                assert(ak@ =~= ak_extension());
            }
            e == ak
        },
        None => false,
    }
}

} // verus!

//! Aiken projects and the discovery of their root directory.
//!
//! A project root is the nearest directory, at or above a starting path,
//! that holds an `aiken.toml`. Whether a file exists is for the caller to
//! find out; the library says which directories to look in and which one
//! the answers make the root.

use vstd::prelude::*;
use crate::error::CoreError;
use crate::paths::{joined, parent_of, path_join, path_parent};
use crate::parse::string_views;
use crate::text::{chars_equal, opt_view, str_chars};
use vstd::std_specs::cmp::PartialEqSpecImpl;

verus! {

/// The root directory of an Aiken project (the directory holding
/// `aiken.toml`).
#[derive(Debug, Clone, Eq)]
pub struct ProjectRoot(String);

/// Two roots are equal when their paths are the same text.
impl PartialEq for ProjectRoot {
    fn eq(&self, other: &Self) -> (r: bool) {
        let a = str_chars(self.0.as_str());
        let b = str_chars(other.0.as_str());
        chars_equal(&a, &b)
    }
}

impl PartialEqSpecImpl for ProjectRoot {
    open spec fn obeys_eq_spec() -> bool {
        true
    }

    open spec fn eq_spec(&self, other: &Self) -> bool {
        self.path() == other.path()
    }
}

impl ProjectRoot {
    /// The root's path.
    pub closed spec fn path(&self) -> Seq<char> {
        self.0@
    }

    /// A root at the given path.
    pub fn new(path: String) -> (r: Self)
        ensures
            r.path() == path@,
    {
        ProjectRoot(path)
    }

    /// The root's path.
    pub fn as_path(&self) -> (r: &String)
        ensures
            r@ == self.path(),
    {
        &self.0
    }

    /// A copy of this root.
    pub fn duplicate(&self) -> (r: Self)
        ensures
            r.path() == self.path(),
    {
        ProjectRoot(self.0.clone())
    }
}

/// The project a tool works on.
#[derive(Debug, Clone)]
pub struct Project {
    pub root: ProjectRoot,
}

impl Project {
    /// The project rooted at `root`.
    pub fn new(root: ProjectRoot) -> (p: Self)
        ensures
            p.root == root,
    {
        Project { root }
    }
}

/// The file name that marks a project root.
pub open spec fn manifest_name() -> Seq<char> {
    "aiken.toml"@
}

/// The path of the manifest a directory would hold.
pub fn manifest_path(dir: &str) -> (r: String)
    ensures
        r@ == joined(dir@, manifest_name()),
{
    path_join(dir, "aiken.toml")
}

/// The directory where discovery starts: the start itself, or its parent
/// when the start is a file.
pub open spec fn first_dir(start: Seq<char>, start_is_file: bool) -> Option<Seq<char>> {
    if start_is_file {
        parent_of(start)
    } else {
        Some(start)
    }
}

/// `dirs` is the chain of directories that discovery visits: the first
/// directory, then each one's parent, up to one that has none.
pub open spec fn is_search_chain(dirs: Seq<Seq<char>>, first: Option<Seq<char>>) -> bool {
    &&& match first {
        Some(d) => dirs.len() > 0 && dirs[0] == d,
        None => dirs.len() == 0,
    }
    &&& forall|i: int| 0 <= i < dirs.len() - 1 ==> parent_of(#[trigger] dirs[i]) == Some(dirs[i + 1])
    &&& dirs.len() > 0 ==> parent_of(dirs.last()) is None
}

/// The directories to look for `aiken.toml` in, nearest first.
pub fn search_dirs(start: &str, start_is_file: bool) -> (dirs: Vec<String>)
    ensures
        is_search_chain(string_views(dirs@), first_dir(start@, start_is_file)),
{
    let mut dirs: Vec<String> = Vec::new();
    let mut current: Option<String> = if start_is_file {
        path_parent(start)
    } else {
        Some(start.to_owned())
    };
    let ghost first = opt_view(current);
    assert(first == first_dir(start@, start_is_file));
    loop
        invariant
            first == first_dir(start@, start_is_file),
            dirs.len() == 0 ==> opt_view(current) == first,
            dirs.len() > 0 ==> (match first {
                Some(d) => string_views(dirs@)[0] == d,
                None => false,
            }),
            forall|i: int|
                0 <= i < dirs.len() - 1 ==> parent_of(#[trigger] string_views(dirs@)[i]) == Some(
                    string_views(dirs@)[i + 1],
                ),
            dirs.len() > 0 ==> parent_of(string_views(dirs@).last()) == opt_view(current),
        decreases (match current {
            Some(c) => c@.len() + 1,
            None => 0,
        }),
    {
        match current {
            Some(dir) => {
                let next = path_parent(dir.as_str());
                let ghost before = string_views(dirs@);
                let ghost dv = dir@;
                dirs.push(dir);
                assert(string_views(dirs@) =~= before.push(dv));
                current = next;
            },
            None => {
                return dirs;
            },
        }
    }
}

/// The project root that discovery finds: the first directory of `dirs`
/// whose `found` flag says it holds `aiken.toml`, or `ProjectNotFound`
/// naming `start` when none does.
pub fn select_root(start: &str, dirs: &Vec<String>, found: &Vec<bool>) -> (r: Result<
    ProjectRoot,
    CoreError,
>)
    requires
        found.len() == dirs.len(),
    ensures
        match r {
            Ok(root) => exists|i: int|
                0 <= i < dirs.len() && found@[i] && root.path() == dirs@[i]@ && forall|j: int|
                    0 <= j < i ==> !found@[j],
            Err(e) => (forall|i: int| 0 <= i < found.len() ==> !found@[i]) && (e matches CoreError::ProjectNotFound { path } && path@ == start@),
        },
{
    for i in 0..dirs.len()
        invariant
            found.len() == dirs.len(),
            forall|j: int| 0 <= j < i ==> !found@[j],
    {
        if found[i] {
            return Ok(ProjectRoot(dirs[i].clone()));
        }
    }
    Err(CoreError::ProjectNotFound { path: start.to_owned() })
}

} // verus!

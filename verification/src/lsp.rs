//! Language-server answers as the tools report them.
//!
//! The LSP reply types are held as the plain values the tools read
//! (`HoverBody`, `DocText`, `CompletionEntry`, `DefinitionReply`); the
//! library turns them into `Hover`, `Completion` and `Location` values.

use vstd::prelude::*;
use crate::diagnostic::SourceSpan;
use crate::error::CoreError;
use crate::text::{append_chars, char_lines, join, join_chars, opt_view, str_chars, string_from_chars};

verus! {

/// Hover text at a position.
#[derive(Debug, Clone)]
pub struct Hover {
    pub markdown: String,
    pub range: Option<SourceSpan>,
}

/// One completion candidate.
#[derive(Debug, Clone)]
pub struct Completion {
    pub label: String,
    pub kind: Option<String>,
    pub detail: Option<String>,
    pub doc: Option<String>,
}

/// A position in a file (zero-based line and column).
#[derive(Debug, Clone)]
pub struct Location {
    pub file: String,
    pub line: u32,
    pub column: u32,
}

/// A marked string of a hover reply: plain text, or code in a language.
#[derive(Debug, Clone)]
pub enum MarkedText {
    Plain(String),
    Code { language: String, value: String },
}

/// The contents of a hover reply.
#[derive(Debug, Clone)]
pub enum HoverBody {
    Markup(String),
    Scalar(MarkedText),
    Array(Vec<MarkedText>),
}

/// Documentation of a completion item: plain text or markup.
#[derive(Debug, Clone)]
pub enum DocText {
    Plain(String),
    Markup(String),
}

/// A completion item as the server sent it; `kind` is the item kind's
/// debug name.
#[derive(Debug, Clone)]
pub struct CompletionEntry {
    pub label: String,
    pub kind: Option<String>,
    pub detail: Option<String>,
    pub documentation: Option<DocText>,
}

impl DocText {
    /// A copy of this documentation.
    pub fn duplicate(&self) -> (r: Self)
        ensures
            r == *self,
    {
        match self {
            DocText::Plain(s) => DocText::Plain(s.clone()),
            DocText::Markup(s) => DocText::Markup(s.clone()),
        }
    }
}

impl CompletionEntry {
    /// A copy of this item.
    pub fn duplicate(&self) -> (r: Self)
        ensures
            r == *self,
    {
        CompletionEntry {
            label: self.label.clone(),
            kind: match &self.kind {
                Some(k) => Some(k.clone()),
                None => None,
            },
            detail: match &self.detail {
                Some(d) => Some(d.clone()),
                None => None,
            },
            documentation: match &self.documentation {
                Some(d) => Some(d.duplicate()),
                None => None,
            },
        }
    }
}

/// A completion reply: a bare array of items or a completion list.
#[derive(Debug, Clone)]
pub enum CompletionReply {
    Array(Vec<CompletionEntry>),
    List(Vec<CompletionEntry>),
}

/// A location of a definition reply: the path of its URI and the start of
/// its range (for a link, of its target range).
#[derive(Debug, Clone)]
pub struct LspLocation {
    pub path: String,
    pub line: u32,
    pub character: u32,
}

/// A definition reply.
#[derive(Debug, Clone)]
pub enum DefinitionReply {
    Scalar(LspLocation),
    Array(Vec<LspLocation>),
    Link(Vec<LspLocation>),
}

/// A marked string rendered as markdown: plain text as is, code as a fenced
/// block in its language.
pub open spec fn marked_markdown(m: MarkedText) -> Seq<char> {
    match m {
        MarkedText::Plain(v) => v@,
        MarkedText::Code { language, value } => "```"@ + language@ + seq!['\n'] + value@
            + seq!['\n'] + "```"@,
    }
}

/// Each marked string rendered as markdown.
pub open spec fn marked_views(ms: Seq<MarkedText>) -> Seq<Seq<char>> {
    ms.map_values(|m: MarkedText| marked_markdown(m))
}

/// Hover contents rendered as markdown; the parts of an array are separated
/// by a blank line.
pub open spec fn hover_markdown(h: HoverBody) -> Seq<char> {
    match h {
        HoverBody::Markup(v) => v@,
        HoverBody::Scalar(m) => marked_markdown(m),
        HoverBody::Array(a) => join(marked_views(a@), seq!['\n', '\n']),
    }
}

/// Renders one marked string.
fn marked_to_markdown(m: &MarkedText) -> (r: Vec<char>)
    ensures
        r@ == marked_markdown(*m),
{
    match m {
        MarkedText::Plain(v) => str_chars(v.as_str()),
        MarkedText::Code { language, value } => {
            let fence = str_chars("```");
            proof {
                reveal_strlit("```");
            }
            let mut r = str_chars("```");
            append_chars(&mut r, &str_chars(language.as_str()));
            r.push('\n');
            append_chars(&mut r, &str_chars(value.as_str()));
            r.push('\n');
            append_chars(&mut r, &fence);
            r
        },
    }
}

/// Renders hover contents as markdown.
pub fn hover_to_markdown(contents: &HoverBody) -> (s: String)
    ensures
        s@ == hover_markdown(*contents),
{
    match contents {
        HoverBody::Markup(v) => v.clone(),
        HoverBody::Scalar(m) => string_from_chars(marked_to_markdown(m).as_slice()),
        HoverBody::Array(arr) => {
            let mut parts: Vec<Vec<char>> = Vec::new();
            for i in 0..arr.len()
                invariant
                    char_lines(parts@) == marked_views(arr@.take(i as int)),
            {
                let ghost before = char_lines(parts@);
                let p = marked_to_markdown(&arr[i]);
                parts.push(p);
                assert(char_lines(parts@) =~= before.push(p@));
                assert forall|k: int| 0 <= k < i + 1 implies #[trigger] marked_views(arr@.take(i + 1))[k] == char_lines(parts@)[k] by {
                    if k < i {
                        assert(arr@.take(i + 1)[k] == arr@.take(i as int)[k]);
                    }
                }
                assert(char_lines(parts@) =~= marked_views(arr@.take(i + 1)));
            }
            assert(arr@.take(arr.len() as int) =~= arr@);
            let sep = str_chars("\n\n");
            proof {
                reveal_strlit("\n\n");
                assert(sep@ =~= seq!['\n', '\n']);
            }
            string_from_chars(join_chars(&parts, &sep).as_slice())
        },
    }
}

/// The text of a documentation value.
pub open spec fn doc_text(d: DocText) -> Seq<char> {
    match d {
        DocText::Plain(s) => s@,
        DocText::Markup(s) => s@,
    }
}

/// The text of a documentation value.
pub fn doc_to_string(d: DocText) -> (s: String)
    ensures
        s@ == doc_text(d),
{
    match d {
        DocText::Plain(s) => s,
        DocText::Markup(m) => m,
    }
}

/// The hover a reply gives: its contents as markdown, with no range.
pub fn hover_from_reply(reply: Option<HoverBody>) -> (h: Option<Hover>)
    ensures
        match reply {
            Some(b) => h matches Some(x) && x.markdown@ == hover_markdown(b) && x.range is None,
            None => h is None,
        },
{
    match reply {
        Some(b) => Some(Hover { markdown: hover_to_markdown(&b), range: None }),
        None => None,
    }
}

/// A completion item as the tools report it.
pub open spec fn completion_of(e: CompletionEntry, c: Completion) -> bool {
    &&& c.label@ == e.label@
    &&& opt_view(c.kind) == opt_view(e.kind)
    &&& opt_view(c.detail) == opt_view(e.detail)
    &&& opt_view(c.doc) == match e.documentation {
        Some(d) => Some(doc_text(d)),
        None => None,
    }
}

/// Converts one completion item.
pub fn completion_from_entry(e: CompletionEntry) -> (c: Completion)
    ensures
        completion_of(e, c),
{
    let doc = match e.documentation {
        Some(d) => Some(doc_to_string(d)),
        None => None,
    };
    Completion { label: e.label, kind: e.kind, detail: e.detail, doc }
}

/// The items of a completion reply (none for no reply).
pub open spec fn reply_entries(reply: Option<CompletionReply>) -> Seq<CompletionEntry> {
    match reply {
        Some(CompletionReply::Array(items)) => items@,
        Some(CompletionReply::List(items)) => items@,
        None => Seq::empty(),
    }
}

/// The completions a reply gives, one per item, in order.
pub fn completions_from_reply(reply: Option<CompletionReply>) -> (cs: Vec<Completion>)
    ensures
        cs.len() == reply_entries(reply).len(),
        forall|i: int| 0 <= i < cs.len() ==> completion_of(reply_entries(reply)[i], #[trigger] cs@[i]),
{
    let items = match reply {
        Some(CompletionReply::Array(items)) => items,
        Some(CompletionReply::List(items)) => items,
        None => Vec::new(),
    };
    let mut out: Vec<Completion> = Vec::new();
    for i in 0..items.len()
        invariant
            out.len() == i,
            items@ == reply_entries(reply),
            forall|k: int| 0 <= k < i ==> completion_of(items@[k], #[trigger] out@[k]),
    {
        let e = items[i].duplicate();
        out.push(completion_from_entry(e));
    }
    out
}

/// A definition location as the tools report it.
pub open spec fn location_of(l: LspLocation, loc: Location) -> bool {
    loc.file@ == l.path@ && loc.line == l.line && loc.column == l.character
}

/// Converts one definition location.
pub fn to_core_loc(l: &LspLocation) -> (loc: Location)
    ensures
        location_of(*l, loc),
{
    Location { file: l.path.clone(), line: l.line, column: l.character }
}

/// The locations of a definition reply (none for no reply).
pub open spec fn reply_locations(reply: Option<DefinitionReply>) -> Seq<LspLocation> {
    match reply {
        Some(DefinitionReply::Scalar(l)) => seq![l],
        Some(DefinitionReply::Array(ls)) => ls@,
        Some(DefinitionReply::Link(ls)) => ls@,
        None => Seq::empty(),
    }
}

/// The locations a definition reply gives, in order.
pub fn definition_locations(reply: Option<DefinitionReply>) -> (out: Vec<Location>)
    ensures
        out.len() == reply_locations(reply).len(),
        forall|i: int|
            0 <= i < out.len() ==> location_of(reply_locations(reply)[i], #[trigger] out@[i]),
{
    let mut out: Vec<Location> = Vec::new();
    match reply {
        Some(DefinitionReply::Scalar(l)) => {
            out.push(to_core_loc(&l));
        },
        Some(DefinitionReply::Array(ls)) | Some(DefinitionReply::Link(ls)) => {
            for i in 0..ls.len()
                invariant
                    out.len() == i,
                    forall|k: int| 0 <= k < i ==> location_of(ls@[k], #[trigger] out@[k]),
            {
                out.push(to_core_loc(&ls[i]));
            }
        },
        None => {},
    }
    out
}

/// `url::Url::from_file_path` rendered as text: the `file://` URL of an
/// absolute path, if the crate can form one.
pub uninterp spec fn file_url_of(abs: Seq<char>) -> Option<Seq<char>>;

/// `url::Url::from_file_path`, then `Url::as_str`. The contract names the
/// crate's answer.
#[verifier::external_body]
fn url_from_file_path(abs: &str) -> (r: Option<String>)
    ensures
        opt_view(r) == file_url_of(abs@),
{
    url::Url::from_file_path(abs).ok().map(|u| u.as_str().to_owned())
}

/// The `file://` URL of an absolute path, or the error that the path has
/// none.
pub fn file_url(abs: &str) -> (r: Result<String, CoreError>)
    ensures
        match file_url_of(abs@) {
            Some(u) => r matches Ok(s) && s@ == u,
            None => r matches Err(CoreError::Other(m)) && m@ == "could not convert path to URL: "@
                + abs@,
        },
{
    match url_from_file_path(abs) {
        Some(u) => Ok(u),
        None => {
            let mut m = String::from_str("could not convert path to URL: ");
            m.append(abs);
            Err(CoreError::other(m))
        },
    }
}

/// Request ids for the language server, handed out in increasing order
/// starting from 1.
pub struct RequestIds {
    next: i64,
}

impl RequestIds {
    /// The id the next request gets.
    pub closed spec fn upcoming(&self) -> i64 {
        self.next
    }

    /// A fresh allocator: the first id is 1.
    pub fn new() -> (r: Self)
        ensures
            r.upcoming() == 1,
    {
        RequestIds { next: 1 }
    }

    /// Hands out the next id (wrapping at `i64::MAX`, as an atomic
    /// `fetch_add` does).
    pub fn next_id(&mut self) -> (id: i64)
        ensures
            id == old(self).upcoming(),
            final(self).upcoming() == id.wrapping_add(1),
    {
        let id = self.next;
        self.next = id.wrapping_add(1);
        id
    }
}

/// Until the counter reaches `i64::MAX`, each request gets a larger id
/// than the one before, so no two requests in flight share an id.
pub proof fn law_request_ids_increase(ids: RequestIds, id: i64, after: RequestIds)
    requires
        id == ids.upcoming(),
        after.upcoming() == id.wrapping_add(1),
        id < i64::MAX,
    ensures
        after.upcoming() == id + 1,
        after.upcoming() > id,
{
}

} // verus!

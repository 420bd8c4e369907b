//! The `.ak` symbol extractor.
//!
//! Every `.ak` file is read line by line. Lines matching a `pub fn`,
//! `pub type`, `pub const` or `validator` declaration become symbols, each
//! with the `///` doc comment block directly above it:
//! - lines starting with `///` (item docs) are accumulated into a pending
//!   buffer, with the marker and at most one following space removed;
//! - a blank line resets the buffer;
//! - a line that is neither a doc line, blank, nor a declaration resets it;
//! - a declaration takes the buffer as its doc and clears it;
//! - module docs (`////`) are never attached and reset the buffer.
//! A lookup matches the query against the symbol's name or its doc text,
//! ignoring ASCII case.

use vstd::prelude::*;
use crate::text::min;
use crate::paths::{derive_module, module_name};
use crate::matcher::{compile_regex, regex_capture_group1, regex_first_group, regex_valid, CompiledRegex};
use crate::text::{
    char_lines, contains, contains_chars, has_prefix, join, join_chars, lines, lower, lower_chars,
    opt_view, slice_of, str_chars, str_lines, string_from_chars, strip_prefix_chars, trim,
    trim_bounds, trim_start, trim_start_index,
};

verus! {

/// The kind of a top-level declaration.
#[derive(Debug, Clone, Copy, PartialEq, Eq, Structural)]
pub enum SymbolKind {
    Fn,
    Type,
    Const,
    Validator,
}

/// One public declaration found in an `.ak` file.
#[derive(Debug, Clone)]
pub struct Symbol {
    pub name: String,
    pub kind: SymbolKind,
    pub module: String,
    pub signature: String,
    pub file: String,
    pub line: u32,
    pub doc: Option<String>,
}

/// The pattern of a `pub fn` declaration line.
pub open spec fn fn_pattern() -> Seq<char> {
    "^\\s*pub\\s+fn\\s+(\\w+)\\b"@
}

/// The pattern of a `pub type` declaration line.
pub open spec fn type_pattern() -> Seq<char> {
    "^\\s*pub\\s+type\\s+(\\w+)\\b"@
}

/// The pattern of a `pub const` declaration line.
pub open spec fn const_pattern() -> Seq<char> {
    "^\\s*pub\\s+const\\s+(\\w+)\\b"@
}

/// The pattern of a `validator` declaration line.
pub open spec fn validator_pattern() -> Seq<char> {
    "^\\s*validator\\s+(\\w+)\\b"@
}

/// The declaration a line makes, by the first of the four patterns that
/// matches it: the declared name and its kind.
pub open spec fn decl_of(line: Seq<char>) -> Option<(Seq<char>, SymbolKind)> {
    match regex_first_group(fn_pattern(), line) {
        Some(n) => Some((n, SymbolKind::Fn)),
        None => match regex_first_group(type_pattern(), line) {
            Some(n) => Some((n, SymbolKind::Type)),
            None => match regex_first_group(const_pattern(), line) {
                Some(n) => Some((n, SymbolKind::Const)),
                None => match regex_first_group(validator_pattern(), line) {
                    Some(n) => Some((n, SymbolKind::Validator)),
                    None => None,
                },
            },
        },
    }
}

/// The four compiled declaration patterns.
pub struct ParseRegexes {
    pub pub_fn: CompiledRegex,
    pub pub_type: CompiledRegex,
    pub pub_const: CompiledRegex,
    pub validator: CompiledRegex,
}

impl ParseRegexes {
    /// Each matcher was compiled from its declaration pattern.
    pub open spec fn wf(&self) -> bool {
        &&& self.pub_fn.source() == fn_pattern()
        &&& self.pub_type.source() == type_pattern()
        &&& self.pub_const.source() == const_pattern()
        &&& self.validator.source() == validator_pattern()
    }

    /// Compiles the four declaration patterns; `None` only if the regex crate
    /// rejects one of them.
    pub fn new() -> (r: Option<ParseRegexes>)
        ensures
            r is Some <==> (regex_valid(fn_pattern()) && regex_valid(type_pattern())
                && regex_valid(const_pattern()) && regex_valid(validator_pattern())),
            r matches Some(x) ==> x.wf(),
    {
        let pub_fn = compile_regex("^\\s*pub\\s+fn\\s+(\\w+)\\b");
        let pub_type = compile_regex("^\\s*pub\\s+type\\s+(\\w+)\\b");
        let pub_const = compile_regex("^\\s*pub\\s+const\\s+(\\w+)\\b");
        let validator = compile_regex("^\\s*validator\\s+(\\w+)\\b");
        match (pub_fn, pub_type, pub_const, validator) {
            (Some(pub_fn), Some(pub_type), Some(pub_const), Some(validator)) => Some(
                ParseRegexes { pub_fn, pub_type, pub_const, validator },
            ),
            _ => None,
        }
    }

    /// The symbol that `line` declares, with `pending_doc` joined by newlines
    /// as its doc (none when the buffer is empty).
    pub fn match_line(
        &self,
        line: &str,
        lineno: u32,
        module: &str,
        path: &str,
        pending_doc: &Vec<Vec<char>>,
    ) -> (r: Option<Symbol>)
        requires
            self.wf(),
        ensures
            match decl_of(line@) {
                Some((name, kind)) => r matches Some(s) && s.name@ == name && s.kind == kind
                    && s.signature@ == trim(line@) && s.line == lineno && s.module@ == module@
                    && s.file@ == path@ && opt_view(s.doc) == doc_of(char_lines(pending_doc@)),
                None => r is None,
            },
    {
        let decl = match regex_capture_group1(&self.pub_fn, line) {
            Some(n) => Some((n, SymbolKind::Fn)),
            None => match regex_capture_group1(&self.pub_type, line) {
                Some(n) => Some((n, SymbolKind::Type)),
                None => match regex_capture_group1(&self.pub_const, line) {
                    Some(n) => Some((n, SymbolKind::Const)),
                    None => match regex_capture_group1(&self.validator, line) {
                        Some(n) => Some((n, SymbolKind::Validator)),
                        None => None,
                    },
                },
            },
        };
        symbol_from_decl(decl, line, lineno, module, path, pending_doc)
    }
}

/// The symbol a declaration line makes, given the declaration the patterns
/// found in it (its name and kind, or none): the name and kind found, the
/// trimmed line as signature, the line number, module and file, and
/// `pending_doc` joined by newlines as its doc (none when the buffer is
/// empty). No declaration, no symbol.
pub fn symbol_from_decl(
    decl: Option<(String, SymbolKind)>,
    line: &str,
    lineno: u32,
    module: &str,
    path: &str,
    pending_doc: &Vec<Vec<char>>,
) -> (r: Option<Symbol>)
    ensures
        match decl {
            Some((name, kind)) => r matches Some(s) && s.name@ == name@ && s.kind == kind
                && s.signature@ == trim(line@) && s.line == lineno && s.module@ == module@
                && s.file@ == path@ && opt_view(s.doc) == doc_of(char_lines(pending_doc@)),
            None => r is None,
        },
{
    let (name, kind) = match decl {
        Some(d) => d,
        None => {
            return None;
        },
    };
    let doc = if pending_doc.len() == 0 {
        None
    } else {
        let nl = str_chars("\n");
        proof {
            reveal_strlit("\n");
            assert(nl@ =~= newline());
        }
        Some(string_from_chars(join_chars(pending_doc, &nl).as_slice()))
    };
    let chars = str_chars(line);
    let (a, b) = trim_bounds(&chars);
    let signature = string_from_chars(slice_of(&chars, a, b).as_slice());
    Some(
        Symbol {
            name,
            kind,
            module: module.to_owned(),
            signature,
            file: path.to_owned(),
            line: lineno,
            doc,
        },
    )
}

/// A newline.
pub open spec fn newline() -> Seq<char> {
    seq!['\n']
}

/// The doc that a pending buffer gives a declaration.
pub open spec fn doc_of(pending: Seq<Seq<char>>) -> Option<Seq<char>> {
    if pending.len() == 0 {
        None
    } else {
        Some(join(pending, newline()))
    }
}

/// The item-doc marker.
pub open spec fn doc_marker() -> Seq<char> {
    seq!['/', '/', '/']
}

/// A line whose text, after leading whitespace, starts with `///`.
pub open spec fn is_marked(line: Seq<char>) -> bool {
    has_prefix(trim_start(line), doc_marker())
}

/// What follows the `///` marker of a marked line.
pub open spec fn after_marker(line: Seq<char>) -> Seq<char> {
    trim_start(line).skip(3)
}

/// A module-doc line: `////` after leading whitespace.
pub open spec fn is_module_doc(line: Seq<char>) -> bool {
    is_marked(line) && after_marker(line).len() > 0 && after_marker(line)[0] == '/'
}

/// An item-doc line: `///` but not `////` after leading whitespace.
pub open spec fn is_item_doc(line: Seq<char>) -> bool {
    is_marked(line) && !is_module_doc(line)
}

/// The text an item-doc line contributes: after the marker, with at most one
/// leading space removed.
pub open spec fn doc_body(line: Seq<char>) -> Seq<char> {
    let rest = after_marker(line);
    if rest.len() > 0 && rest[0] == ' ' {
        rest.drop_first()
    } else {
        rest
    }
}

/// A symbol as the extractor sees it: name, kind, signature, line number
/// (from 1) and doc.
pub type SymbolModel = (Seq<char>, SymbolKind, Seq<char>, int, Option<Seq<char>>);

/// The extractor's state after reading `ls`: the symbols found so far and the
/// pending doc buffer. Line `i` (from 0) of `ls` has line number `i + 1`.
pub open spec fn scan(ls: Seq<Seq<char>>) -> (Seq<SymbolModel>, Seq<Seq<char>>)
    decreases ls.len(),
{
    if ls.len() == 0 {
        (Seq::empty(), Seq::empty())
    } else {
        let (syms, pending) = scan(ls.drop_last());
        let line = ls.last();
        if is_marked(line) {
            if is_module_doc(line) {
                (syms, Seq::empty())
            } else {
                (syms, pending.push(doc_body(line)))
            }
        } else if trim_start(line).len() == 0 {
            (syms, Seq::empty())
        } else {
            match decl_of(line) {
                Some((name, kind)) => (
                    syms.push((name, kind, trim(line), ls.len() as int, doc_of(pending))),
                    Seq::empty(),
                ),
                None => (syms, Seq::empty()),
            }
        }
    }
}

/// What the extractor records of a symbol.
pub open spec fn symbol_model(s: Symbol) -> SymbolModel {
    (s.name@, s.kind, s.signature@, s.line as int, opt_view(s.doc))
}

/// What the extractor records of each symbol.
pub open spec fn symbol_models(ss: Seq<Symbol>) -> Seq<SymbolModel> {
    ss.map_values(|s: Symbol| symbol_model(s))
}

/// The symbol names the given module and file.
pub open spec fn located(s: Symbol, module: Seq<char>, path: Seq<char>) -> bool {
    s.module@ == module && s.file@ == path
}

/// Every symbol in `ss` names the given module and file.
pub open spec fn all_in(ss: Seq<Symbol>, module: Seq<char>, path: Seq<char>) -> bool {
    forall|i: int| 0 <= i < ss.len() ==> #[trigger] located(ss[i], module, path)
}

/// Walks a file's lines and returns every public declaration with its doc
/// comment block (if any), in order.
pub fn extract_symbols(text: &str, regexes: &ParseRegexes, module: &str, path: &str) -> (out: Vec<
    Symbol,
>)
    requires
        regexes.wf(),
        lines(text@).len() <= u32::MAX,
    ensures
        symbol_models(out@) == scan(lines(text@)).0,
        all_in(out@, module@, path@),
{
    let ls = str_lines(text);
    let ghost ll = char_lines(ls@);
    let marker = str_chars("///");
    proof {
        reveal_strlit("///");
        assert(marker@ =~= doc_marker());
    }
    let mut out: Vec<Symbol> = Vec::new();
    let mut pending: Vec<Vec<char>> = Vec::new();
    for idx in 0..ls.len()
        invariant
            ll == char_lines(ls@),
            ll == lines(text@),
            ls.len() <= u32::MAX,
            regexes.wf(),
            marker@ == doc_marker(),
            (symbol_models(out@), char_lines(pending@)) == scan(ll.take(idx as int)),
            all_in(out@, module@, path@),
    {
        let line = &ls[idx];
        let ghost lv = line@;
        let ghost prev = ll.take(idx as int);
        proof {
            assert(ll.take(idx + 1).drop_last() =~= prev);
            assert(ll.take(idx + 1).last() == lv);
        }
        let ghost before = out@;
        let ghost before_pending = char_lines(pending@);
        let start = trim_start_index(line);
        let t = slice_of(line, start, line.len());
        assert(t@ == trim_start(lv)) by {
            assert(lv.skip(start as int) =~= lv.subrange(start as int, line.len() as int));
        }
        match strip_prefix_chars(&t, &marker) {
            Some(rest) => {
                if rest.len() > 0 && rest[0] == '/' {
                    pending.clear();
                    assert(char_lines(pending@) =~= Seq::<Seq<char>>::empty());
                } else {
                    let body = if rest.len() > 0 && rest[0] == ' ' {
                        slice_of(&rest, 1, rest.len())
                    } else {
                        rest
                    };
                    assert(body@ == doc_body(lv)) by {
                        if rest.len() > 0 && rest[0] == ' ' {
                            assert(rest@.subrange(1, rest@.len() as int) =~= rest@.drop_first());
                        }
                    }
                    pending.push(body);
                    assert(char_lines(pending@) =~= before_pending.push(body@));
                }
            },
            None => {
                if t.len() == 0 {
                    pending.clear();
                    assert(char_lines(pending@) =~= Seq::<Seq<char>>::empty());
                } else {
                    let line_text = string_from_chars(line.as_slice());
                    let lineno: u32 = (idx as u32) + 1;
                    match regexes.match_line(&line_text, lineno, module, path, &pending) {
                        Some(sym) => {
                            out.push(sym);
                            assert forall|k: int| 0 <= k < out@.len() implies #[trigger] located(
                                out@[k],
                                module@,
                                path@,
                            ) by {
                                if k < before.len() {
                                    assert(out@[k] == before[k]);
                                }
                            }
                            assert(symbol_models(out@) =~= symbol_models(before).push(
                                symbol_model(sym),
                            ));
                        },
                        None => {},
                    }
                    pending.clear();
                    assert(char_lines(pending@) =~= Seq::<Seq<char>>::empty());
                }
            },
        }
    }
    assert(ll.take(ls.len() as int) =~= ll);
    out
}

/// A symbol's name or doc contains the (lowercased) query, ignoring ASCII case.
pub open spec fn symbol_matches(name: Seq<char>, doc: Option<Seq<char>>, q_lower: Seq<char>) -> bool {
    ||| contains(lower(name), q_lower)
    ||| (doc matches Some(d) && contains(lower(d), q_lower))
}

/// How a symbol matches a lowercased query, over all names, docs and
/// queries: it matches exactly when its name, with ASCII letters lowercased,
/// contains the query, or it has a doc that, lowercased, contains it. So
/// matching sees names only through their lowercased form: two names that
/// differ only in ASCII case match the same queries (`MerkleProof` matches
/// `merkle` just as `merkleproof` does).
pub proof fn law_symbol_match_ignores_case(
    name: Seq<char>,
    other: Seq<char>,
    doc: Option<Seq<char>>,
    q_lower: Seq<char>,
)
    ensures
        symbol_matches(name, doc, q_lower) <==> (contains(lower(name), q_lower) || (doc is Some
            && contains(lower(doc->0), q_lower))),
        lower(other) == lower(name) ==> symbol_matches(other, doc, q_lower) == symbol_matches(
            name,
            doc,
            q_lower,
        ),
{
}

/// Whether `sym` matches the lowercased query by name or by doc text.
pub fn matches_query(sym: &Symbol, q_lower: &str) -> (b: bool)
    ensures
        b == symbol_matches(sym.name@, opt_view(sym.doc), q_lower@),
{
    let q = str_chars(q_lower);
    let name = str_chars(sym.name.as_str());
    if contains_chars(&lower_chars(&name), &q) {
        return true;
    }
    match &sym.doc {
        Some(doc) => {
            let d = str_chars(doc.as_str());
            contains_chars(&lower_chars(&d), &q)
        },
        None => false,
    }
}

/// The bodies of the run of item-doc lines at the end of `ls`: the `///`
/// block directly above whatever line comes next.
pub open spec fn trailing_doc_run(ls: Seq<Seq<char>>) -> Seq<Seq<char>>
    decreases ls.len(),
{
    if ls.len() == 0 {
        Seq::empty()
    } else if is_item_doc(ls.last()) {
        trailing_doc_run(ls.drop_last()).push(doc_body(ls.last()))
    } else {
        Seq::empty()
    }
}

/// A declaration line: neither a doc line nor blank, and matched by one of
/// the four patterns.
pub open spec fn is_decl_line(line: Seq<char>) -> bool {
    !is_marked(line) && trim_start(line).len() > 0 && decl_of(line) is Some
}

/// One symbol per declaration line of `ls`, in order, each with the doc block
/// directly above it.
pub open spec fn declarations(ls: Seq<Seq<char>>) -> Seq<SymbolModel>
    decreases ls.len(),
{
    if ls.len() == 0 {
        Seq::empty()
    } else {
        let line = ls.last();
        declarations(ls.drop_last()) + match decl_of(line) {
            Some(d) => if is_decl_line(line) {
                seq![(d.0, d.1, trim(line), ls.len() as int, doc_of(trailing_doc_run(ls.drop_last())))]
            } else {
                Seq::empty()
            },
            None => Seq::empty(),
        }
    }
}

/// The extractor keeps, as its pending doc buffer, exactly the `///` block at
/// the end of what it has read, and reports exactly the declaration lines,
/// each with the block directly above it: a blank line, a module doc
/// (`////`) or any other line between a doc block and a declaration detaches
/// the block.
pub proof fn law_extractor_state(ls: Seq<Seq<char>>)
    ensures
        scan(ls) == (declarations(ls), trailing_doc_run(ls)),
    decreases ls.len(),
{
    if ls.len() > 0 {
        law_extractor_state(ls.drop_last());
        let line = ls.last();
        if is_marked(line) {
        } else if trim_start(line).len() == 0 {
            assert(declarations(ls) =~= declarations(ls.drop_last()));
        } else {
            match decl_of(line) {
                Some(_) => {},
                None => {
                    assert(declarations(ls) =~= declarations(ls.drop_last()));
                },
            }
        }
    }
}

/// Every symbol comes from a declaration line: its line number points at a
/// line of the text that declares that name and kind, its signature is that
/// line trimmed, its doc is the `///` block directly above it, and the
/// symbols come in strictly increasing line order.
pub proof fn law_symbols_point_at_declarations(text: Seq<char>, i: int)
    requires
        0 <= i < scan(lines(text)).0.len(),
    ensures
        ({
            let ls = lines(text);
            let s = scan(ls).0[i];
            &&& 1 <= s.3 <= ls.len()
            &&& is_decl_line(ls[s.3 - 1])
            &&& decl_of(ls[s.3 - 1]) == Some((s.0, s.1))
            &&& s.2 == trim(ls[s.3 - 1])
            &&& s.4 == doc_of(trailing_doc_run(ls.take(s.3 - 1)))
            &&& (i + 1 < scan(ls).0.len() ==> s.3 < scan(ls).0[i + 1].3)
        }),
{
    let ls = lines(text);
    law_extractor_state(ls);
    lemma_declarations_point(ls, i);
}

proof fn lemma_declarations_point(ls: Seq<Seq<char>>, i: int)
    requires
        0 <= i < declarations(ls).len(),
    ensures
        ({
            let s = declarations(ls)[i];
            &&& 1 <= s.3 <= ls.len()
            &&& is_decl_line(ls[s.3 - 1])
            &&& decl_of(ls[s.3 - 1]) == Some((s.0, s.1))
            &&& s.2 == trim(ls[s.3 - 1])
            &&& s.4 == doc_of(trailing_doc_run(ls.take(s.3 - 1)))
            &&& (i + 1 < declarations(ls).len() ==> s.3 < declarations(ls)[i + 1].3)
        }),
    decreases ls.len(),
{
    let prev = ls.drop_last();
    let line = ls.last();
    let dp = declarations(prev);
    if i < dp.len() {
        lemma_declarations_point(prev, i);
        let s = dp[i];
        assert(declarations(ls)[i] == s);
        assert(prev[s.3 - 1] == ls[s.3 - 1]);
        assert(prev.take(s.3 - 1) =~= ls.take(s.3 - 1));
        if i + 1 < declarations(ls).len() {
            if i + 1 < dp.len() {
                lemma_declarations_point(prev, i + 1);
                assert(declarations(ls)[i + 1] == dp[i + 1]);
            } else {
                assert(declarations(ls)[i + 1].3 == ls.len());
            }
        }
    } else {
        assert(is_decl_line(line));
        assert(ls.take(ls.len() - 1) =~= prev);
    }
}

impl Symbol {
    /// A copy of this symbol.
    pub fn duplicate(&self) -> (r: Symbol)
        ensures
            r == *self,
    {
        Symbol {
            name: self.name.clone(),
            kind: self.kind,
            module: self.module.clone(),
            signature: self.signature.clone(),
            file: self.file.clone(),
            line: self.line,
            doc: match &self.doc {
                Some(d) => Some(d.clone()),
                None => None,
            },
        }
    }
}

/// The symbols of `ss` that match the lowercased query, in order.
pub open spec fn matching(ss: Seq<Symbol>, q_lower: Seq<char>) -> Seq<Symbol>
    decreases ss.len(),
{
    if ss.len() == 0 {
        Seq::empty()
    } else {
        matching(ss.drop_last(), q_lower) + if symbol_matches(
            ss.last().name@,
            opt_view(ss.last().doc),
            q_lower,
        ) {
            seq![ss.last()]
        } else {
            Seq::empty()
        }
    }
}

/// Appends to `hits` the symbols of `syms` that match the lowercased query,
/// in order, stopping once `hits` holds `max_hits` symbols.
pub fn collect_matches(hits: &mut Vec<Symbol>, syms: &Vec<Symbol>, q_lower: &str, max_hits: usize)
    requires
        old(hits).len() < max_hits,
    ensures
        final(hits)@ == old(hits)@ + matching(syms@, q_lower@).take(
            min(max_hits - old(hits).len(), matching(syms@, q_lower@).len() as int),
        ),
{
    let ghost start = hits@;
    let ghost room = max_hits - start.len();
    for i in 0..syms.len()
        invariant
            start == old(hits)@,
            start.len() < max_hits,
            room == max_hits - start.len(),
            hits@ == start + matching(syms@.take(i as int), q_lower@),
            hits@.len() < max_hits,
    {
        assert(syms@.take(i + 1).drop_last() =~= syms@.take(i as int));
        assert(syms@.take(i + 1).last() == syms@[i as int]);
        if matches_query(&syms[i], q_lower) {
            hits.push(syms[i].duplicate());
            assert(hits@ =~= start + matching(syms@.take(i + 1), q_lower@));
            if hits.len() >= max_hits {
                proof {
                    lemma_matching_prefix(syms@, q_lower@, i + 1);
                    let m = matching(syms@, q_lower@);
                    let mi = matching(syms@.take(i + 1), q_lower@);
                    assert(mi.len() == room);
                    assert(m.take(room) =~= mi);
                    assert(hits@ =~= start + m.take(min(room, m.len() as int)));
                }
                return;
            }
        }
        assert(hits@ =~= start + matching(syms@.take(i + 1), q_lower@));
    }
    assert(syms@.take(syms.len() as int) =~= syms@);
    assert(matching(syms@, q_lower@).take(matching(syms@, q_lower@).len() as int) =~= matching(
        syms@,
        q_lower@,
    ));
}

proof fn lemma_matching_prefix(ss: Seq<Symbol>, q: Seq<char>, k: int)
    requires
        0 <= k <= ss.len(),
    ensures
        matching(ss.take(k), q).len() <= matching(ss, q).len(),
        matching(ss, q).take(matching(ss.take(k), q).len() as int) == matching(ss.take(k), q),
    decreases ss.len() - k,
{
    if k < ss.len() {
        lemma_matching_prefix(ss.drop_last(), q, k);
        assert(ss.drop_last().take(k) =~= ss.take(k));
        let a = matching(ss.take(k), q);
        let b = matching(ss.drop_last(), q);
        assert(matching(ss, q).take(a.len() as int) =~= b.take(a.len() as int));
    } else {
        assert(ss.take(k) =~= ss);
        assert(matching(ss, q).take(matching(ss, q).len() as int) =~= matching(ss, q));
    }
}

/// Symbol index over the `.ak` files under a set of root directories.
#[derive(Debug, Clone)]
pub struct FileWalkSymbolIndex {
    roots: Vec<String>,
}

impl FileWalkSymbolIndex {
    /// The roots this index walks.
    pub closed spec fn root_paths(&self) -> Seq<Seq<char>> {
        self.roots@.map_values(|r: String| r@)
    }

    /// An index over the given roots.
    pub fn new(roots: Vec<String>) -> (r: Self)
        ensures
            r.root_paths() == roots@.map_values(|s: String| s@),
    {
        FileWalkSymbolIndex { roots }
    }

    /// The roots this index walks.
    pub fn roots(&self) -> (r: &Vec<String>)
        ensures
            r@.map_values(|s: String| s@) == self.root_paths(),
    {
        &self.roots
    }

    /// One file of a lookup: when `hits` has room and `file` is an `.ak`
    /// file, the symbols that its `text` declares and that match the
    /// lowercased query are appended to `hits` in order, until `hits` holds
    /// `max_hits`; otherwise nothing is added. Every symbol added names
    /// `file` and its module under `root`.
    pub fn lookup_file(
        hits: &mut Vec<Symbol>,
        regexes: &ParseRegexes,
        q_lower: &str,
        root: &str,
        file: &str,
        text: &str,
        max_hits: usize,
    )
        requires
            regexes.wf(),
            lines(text@).len() <= u32::MAX,
        ensures
            (old(hits).len() >= max_hits || crate::paths::extension_of(file@) != Some(
                crate::paths::ak_extension(),
            )) ==> final(hits)@ == old(hits)@,
            (old(hits).len() < max_hits && crate::paths::extension_of(file@) == Some(
                crate::paths::ak_extension(),
            )) ==> added_from_file(
                old(hits)@,
                final(hits)@,
                matching_models(scan(lines(text@)).0, q_lower@),
                module_name(root@, file@),
                file@,
                max_hits as int,
            ),
    {
        if hits.len() >= max_hits || !crate::paths::is_ak_file(file) {
            return;
        }
        let module = derive_module(root, file);
        let syms = extract_symbols(text, regexes, module.as_str(), file);
        let ghost start = hits@;
        collect_matches(hits, &syms, q_lower, max_hits);
        proof {
            let found = hits@.subrange(start.len() as int, hits@.len() as int);
            let m = matching(syms@, q_lower@);
            assert(found =~= m.take(min(max_hits - start.len(), m.len() as int)));
            assert(hits@.take(start.len() as int) =~= start);
            lemma_matching_models(syms@, q_lower@);
            assert(symbol_models(found) =~= symbol_models(m).take(found.len() as int));
            assert(symbol_models(m).len() == m.len());
            assert(found.len() == min(max_hits - start.len(), m.len() as int));
            assert(hits@.len() <= max_hits);
            let models = matching_models(scan(lines(text@)).0, q_lower@);
            assert(models == symbol_models(m));
            assert(symbol_models(found) == models.take(found.len() as int));
            assert(found.len() < max_hits - start.len() ==> found.len() == models.len());
            lemma_matching_all_in(syms@, q_lower@, module@, file@);
            assert(all_in(m, module@, file@));
            assert(found.len() <= m.len());
            assert forall|i: int| 0 <= i < found.len() implies #[trigger] located(
                found[i],
                module@,
                file@,
            ) by {
                assert(found[i] == m.take(found.len() as int)[i]);
                assert(found[i] == m[i]);
                assert(located(m[i], module@, file@));
            }
            assert(all_in(found, module@, file@));
            assert(added_from_file(
                start,
                hits@,
                matching_models(scan(lines(text@)).0, q_lower@),
                module@,
                file@,
                max_hits as int,
            ));
        }
    }
}

/// `after` is `before` followed by symbols `found` that name `module` and
/// `file` and whose models begin `models`: all of `models` when there was
/// room for them, else as many as fill `max_hits`.
pub open spec fn added_from_file(
    before: Seq<Symbol>,
    after: Seq<Symbol>,
    models: Seq<SymbolModel>,
    module: Seq<char>,
    file: Seq<char>,
    max_hits: int,
) -> bool {
    let found = after.subrange(before.len() as int, after.len() as int);
    &&& before.len() <= after.len() <= max_hits
    &&& after.take(before.len() as int) == before
    &&& symbol_models(found) == models.take(found.len() as int)
    &&& (found.len() < max_hits - before.len() ==> found.len() == models.len())
    &&& all_in(found, module, file)
}

/// The symbol models of `ms` that match the lowercased query, in order.
pub open spec fn matching_models(ms: Seq<SymbolModel>, q_lower: Seq<char>) -> Seq<SymbolModel>
    decreases ms.len(),
{
    if ms.len() == 0 {
        Seq::empty()
    } else {
        matching_models(ms.drop_last(), q_lower) + if symbol_matches(
            ms.last().0,
            ms.last().4,
            q_lower,
        ) {
            seq![ms.last()]
        } else {
            Seq::empty()
        }
    }
}

proof fn lemma_matching_models(ss: Seq<Symbol>, q: Seq<char>)
    ensures
        symbol_models(matching(ss, q)) == matching_models(symbol_models(ss), q),
    decreases ss.len(),
{
    if ss.len() > 0 {
        lemma_matching_models(ss.drop_last(), q);
        assert(symbol_models(ss).drop_last() =~= symbol_models(ss.drop_last()));
        assert(symbol_models(matching(ss, q)) =~= matching_models(symbol_models(ss), q));
    } else {
        assert(symbol_models(matching(ss, q)) =~= matching_models(symbol_models(ss), q));
    }
}

proof fn lemma_matching_all_in(ss: Seq<Symbol>, q: Seq<char>, module: Seq<char>, path: Seq<char>)
    requires
        all_in(ss, module, path),
    ensures
        all_in(matching(ss, q), module, path),
    decreases ss.len(),
{
    if ss.len() > 0 {
        assert(all_in(ss.drop_last(), module, path)) by {
            assert forall|i: int| 0 <= i < ss.drop_last().len() implies #[trigger] located(
                ss.drop_last()[i],
                module,
                path,
            ) by {
                assert(ss.drop_last()[i] == ss[i]);
                assert(located(ss[i], module, path));
            }
        }
        lemma_matching_all_in(ss.drop_last(), q, module, path);
    }
}

} // verus!

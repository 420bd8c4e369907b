//! The curated catalogs: reference patterns, corpus repositories, and
//! explanations of common compiler errors.
//!
//! The catalogs' contents are data shipped with the server; the library
//! selects from them what a request asks for.

use vstd::prelude::*;
use crate::text::min;
use crate::matcher::{compile_regex, regex_is_match, regex_matches, regex_valid, CompiledRegex};
use crate::text::{chars_equal, contains, contains_chars, lower, lower_chars, str_chars};

verus! {

/// A pointer into a reference codebase.
#[derive(Debug, Clone)]
pub struct PatternRef {
    pub repo: String,
    pub path: String,
    pub lines: Option<String>,
    pub author: Option<String>,
    pub note: Option<String>,
}

/// A curated implementation pattern.
#[derive(Debug, Clone)]
pub struct Pattern {
    pub name: String,
    pub title: String,
    pub description: String,
    pub keywords: Vec<String>,
    pub refs: Vec<PatternRef>,
    pub gotchas: Option<String>,
    pub alternatives: Option<String>,
}

/// Arguments of the pattern catalog.
#[derive(Debug, Clone)]
pub struct PatternCatalogRequest {
    /// Pattern slug for an exact (case-insensitive) match.
    pub name: Option<String>,
    /// Query matched against name, title, description and keywords.
    pub query: Option<String>,
    pub max_hits: usize,
}

/// Answer of the pattern catalog.
#[derive(Debug, Clone)]
pub struct PatternCatalogResponse {
    pub patterns: Vec<Pattern>,
}

/// The result limit of a catalog request that names none.
pub fn default_max() -> (n: usize)
    ensures
        n == 20,
{
    20
}

/// Some keyword of `keywords` contains the lowercased needle, ignoring case.
pub open spec fn keyword_matches(keywords: Seq<String>, needle: Seq<char>) -> bool {
    exists|k: int| 0 <= k < keywords.len() && contains(lower(#[trigger] keywords[k]@), needle)
}

/// A pattern matches a lowercased needle when its name, title, description
/// or one of its keywords contains it, ignoring ASCII case.
pub open spec fn pattern_matches(p: Pattern, needle: Seq<char>) -> bool {
    ||| contains(lower(p.name@), needle)
    ||| contains(lower(p.title@), needle)
    ||| contains(lower(p.description@), needle)
    ||| keyword_matches(p.keywords@, needle)
}

/// Whether a pattern matches the lowercased needle.
pub fn matches_query(p: &Pattern, needle: &str) -> (b: bool)
    ensures
        b == pattern_matches(*p, needle@),
{
    let n = str_chars(needle);
    if contains_chars(&lower_chars(&str_chars(p.name.as_str())), &n) || contains_chars(
        &lower_chars(&str_chars(p.title.as_str())),
        &n,
    ) || contains_chars(&lower_chars(&str_chars(p.description.as_str())), &n) {
        return true;
    }
    for k in 0..p.keywords.len()
        invariant
            n@ == needle@,
            forall|j: int| 0 <= j < k ==> !contains(lower(#[trigger] p.keywords@[j]@), needle@),
    {
        if contains_chars(&lower_chars(&str_chars(p.keywords[k].as_str())), &n) {
            assert(contains(lower(p.keywords@[k as int]@), needle@));
            return true;
        }
    }
    false
}

/// The patterns of `ps`, in order, that `keep` selects.
pub open spec fn select<T>(ps: Seq<T>, keep: spec_fn(T) -> bool) -> Seq<T>
    decreases ps.len(),
{
    if ps.len() == 0 {
        Seq::empty()
    } else {
        select(ps.drop_last(), keep) + if keep(ps.last()) {
            seq![ps.last()]
        } else {
            Seq::empty()
        }
    }
}

/// What the catalog answers: with a name, every pattern whose name equals
/// it ignoring ASCII case; otherwise the patterns matching the query (all
/// when there is none), at most `max_hits` of them.
pub open spec fn catalog_answer(all: Seq<Pattern>, req: PatternCatalogRequest) -> Seq<Pattern> {
    match req.name {
        Some(n) => select(all, |p: Pattern| lower(p.name@) == lower(n@)),
        None => {
            let hits = match req.query {
                Some(q) => select(all, |p: Pattern| pattern_matches(p, lower(q@))),
                None => all,
            };
            hits.take(min(req.max_hits as int, hits.len() as int))
        },
    }
}

/// Moves out of `v`, in order, the items that `keep` selects, given as a
/// flag per item.
fn keep_flagged<T>(v: Vec<T>, flags: &Vec<bool>, keep: Ghost<spec_fn(T) -> bool>) -> (r: Vec<T>)
    requires
        flags.len() == v.len(),
        forall|i: int| 0 <= i < v.len() ==> flags@[i] == (keep@)(#[trigger] v@[i]),
    ensures
        r@ == select(v@, keep@),
{
    let ghost v0 = v@;
    let mut v = v;
    let mut out: Vec<T> = Vec::new();
    let mut k: usize = 0;
    while v.len() > 0
        invariant
            k <= v0.len(),
            flags.len() == v0.len(),
            forall|i: int| 0 <= i < v0.len() ==> flags@[i] == (keep@)(#[trigger] v0[i]),
            v@ == v0.skip(k as int),
            out@ == select(v0.take(k as int), keep@),
        decreases v.len(),
    {
        let x = v.remove(0);
        assert(x == v0[k as int]);
        assert(v0.take(k + 1).drop_last() =~= v0.take(k as int));
        assert(v0.take(k + 1).last() == x);
        if flags[k] {
            out.push(x);
        }
        assert(out@ =~= select(v0.take(k + 1), keep@));
        k = k + 1;
        assert(v@ =~= v0.skip(k as int));
    }
    assert(v0.take(k as int) =~= v0);
    out
}

/// Answers a catalog request over the catalog `all`.
pub fn handle_pattern_catalog(all: Vec<Pattern>, req: PatternCatalogRequest) -> (r:
    PatternCatalogResponse)
    ensures
        r.patterns@ == catalog_answer(all@, req),
{
    if let Some(name) = &req.name {
        let needle = lower_chars(&str_chars(name.as_str()));
        let mut flags: Vec<bool> = Vec::new();
        for i in 0..all.len()
            invariant
                needle@ == lower(name@),
                flags.len() == i,
                forall|j: int|
                    0 <= j < i ==> flags@[j] == (lower(#[trigger] all@[j].name@) == lower(name@)),
        {
            let l = lower_chars(&str_chars(all[i].name.as_str()));
            flags.push(chars_equal(&l, &needle));
        }
        let ghost keep = |p: Pattern| lower(p.name@) == lower(name@);
        let patterns = keep_flagged(all, &flags, Ghost(keep));
        return PatternCatalogResponse { patterns };
    }
    let mut hits = match &req.query {
        Some(q) => {
            let needle_chars = lower_chars(&str_chars(q.as_str()));
            let needle = crate::text::string_from_chars(needle_chars.as_slice());
            let mut flags: Vec<bool> = Vec::new();
            for i in 0..all.len()
                invariant
                    needle@ == lower(q@),
                    flags.len() == i,
                    forall|j: int|
                        0 <= j < i ==> flags@[j] == pattern_matches(#[trigger] all@[j], lower(q@)),
            {
                flags.push(matches_query(&all[i], needle.as_str()));
            }
            let ghost keep = |p: Pattern| pattern_matches(p, lower(q@));
            keep_flagged(all, &flags, Ghost(keep))
        },
        None => all,
    };
    let ghost before = hits@;
    if req.max_hits < hits.len() {
        hits.truncate(req.max_hits);
    }
    assert(hits@ =~= before.take(min(req.max_hits as int, before.len() as int)));
    PatternCatalogResponse { patterns: hits }
}

/// A curated reference repository.
#[derive(Debug, Clone)]
pub struct CorpusEntry {
    pub name: String,
    pub url: String,
    pub author: String,
    pub tags: Vec<String>,
    pub description: Option<String>,
    pub notes: Option<String>,
}

/// Arguments of the corpus list.
#[derive(Debug, Clone)]
pub struct CorpusListRequest {
    /// Tag that listed entries must carry (ignoring ASCII case).
    pub tag: Option<String>,
}

/// Answer of the corpus list.
#[derive(Debug, Clone)]
pub struct CorpusListResponse {
    pub entries: Vec<CorpusEntry>,
}

/// The entry carries the tag, ignoring ASCII case.
pub open spec fn has_tag(e: CorpusEntry, tag: Seq<char>) -> bool {
    exists|k: int| 0 <= k < e.tags.len() && lower(#[trigger] e.tags@[k]@) == lower(tag)
}

/// The entries of `all`, in order, that carry the tag.
pub open spec fn tagged(all: Seq<CorpusEntry>, tag: Seq<char>) -> Seq<CorpusEntry> {
    select(all, |e: CorpusEntry| has_tag(e, tag))
}

/// Whether the entry carries the tag, ignoring ASCII case.
fn entry_has_tag(e: &CorpusEntry, needle: &Vec<char>, tag: Ghost<Seq<char>>) -> (b: bool)
    requires
        needle@ == lower(tag@),
    ensures
        b == has_tag(*e, tag@),
{
    for k in 0..e.tags.len()
        invariant
            needle@ == lower(tag@),
            forall|j: int| 0 <= j < k ==> lower(#[trigger] e.tags@[j]@) != lower(tag@),
    {
        if chars_equal(&lower_chars(&str_chars(e.tags[k].as_str())), needle) {
            assert(lower(e.tags@[k as int]@) == lower(tag@));
            return true;
        }
    }
    false
}

/// Lists the catalog `all`: every entry with the requested tag, or all of
/// them when no tag is given.
pub fn handle_corpus_list(all: Vec<CorpusEntry>, req: CorpusListRequest) -> (r: CorpusListResponse)
    ensures
        r.entries@ == match req.tag {
            Some(t) => tagged(all@, t@),
            None => all@,
        },
{
    match &req.tag {
        Some(t) => {
            let needle = lower_chars(&str_chars(t.as_str()));
            let mut flags: Vec<bool> = Vec::new();
            for i in 0..all.len()
                invariant
                    needle@ == lower(t@),
                    flags.len() == i,
                    forall|j: int| 0 <= j < i ==> flags@[j] == has_tag(#[trigger] all@[j], t@),
            {
                flags.push(entry_has_tag(&all[i], &needle, Ghost(t@)));
            }
            let ghost keep = |e: CorpusEntry| has_tag(e, t@);
            CorpusListResponse { entries: keep_flagged(all, &flags, Ghost(keep)) }
        },
        None => CorpusListResponse { entries: all },
    }
}

/// Selecting by a predicate is `Seq::filter` by any predicate that agrees
/// with it everywhere.
proof fn lemma_select_is_filter<T>(ps: Seq<T>, keep: spec_fn(T) -> bool, pred: spec_fn(T) -> bool)
    requires
        forall|x: T| #[trigger] keep(x) == pred(x),
    ensures
        select(ps, keep) == ps.filter(pred),
    decreases ps.len(),
{
    reveal(Seq::filter);
    if ps.len() > 0 {
        lemma_select_is_filter(ps.drop_last(), keep, pred);
        assert(keep(ps.last()) == pred(ps.last()));
        if pred(ps.last()) {
            assert(select(ps, keep) =~= ps.filter(pred));
        } else {
            assert(select(ps, keep) =~= ps.filter(pred));
        }
    } else {
        assert(select(ps, keep) =~= ps.filter(pred));
    }
}

/// What the pattern catalog answers, over all catalogs and requests:
/// - with a name, every pattern whose name equals it ignoring ASCII case, in
///   catalog order;
/// - without a name, at most `max_hits` patterns, whether or not a query is
///   given: with a query, the first `max_hits` (in catalog order) of the
///   patterns whose name, title, description or some keyword contains the
///   query, ignoring ASCII case; without one, the first `max_hits` of the
///   catalog.
pub proof fn law_catalog_answer(all: Seq<Pattern>, req: PatternCatalogRequest)
    ensures
        req.name matches Some(n) ==> catalog_answer(all, req) == all.filter(
            |p: Pattern| lower(p.name@) == lower(n@),
        ),
        req.name is None ==> catalog_answer(all, req).len() <= req.max_hits,
        req.name is None && req.query is None ==> catalog_answer(all, req) == all.take(
            if req.max_hits < all.len() { req.max_hits as int } else { all.len() as int },
        ),
        req.name is None ==> (req.query matches Some(q) ==> ({
            let m = all.filter(
                |p: Pattern|
                    contains(lower(p.name@), lower(q@)) || contains(lower(p.title@), lower(q@))
                        || contains(lower(p.description@), lower(q@)) || exists|k: int|
                        0 <= k < p.keywords.len() && contains(
                            lower(#[trigger] p.keywords@[k]@),
                            lower(q@),
                        ),
            );
            catalog_answer(all, req) == m.take(
                if req.max_hits < m.len() { req.max_hits as int } else { m.len() as int },
            )
        })),
{
    match req.name {
        Some(n) => {
            let keep = |p: Pattern| lower(p.name@) == lower(n@);
            lemma_select_is_filter(all, keep, keep);
        },
        None => match req.query {
            Some(q) => {
                let keep = |p: Pattern| pattern_matches(p, lower(q@));
                let pred = |p: Pattern|
                    contains(lower(p.name@), lower(q@)) || contains(lower(p.title@), lower(q@))
                        || contains(lower(p.description@), lower(q@)) || exists|k: int|
                        0 <= k < p.keywords.len() && contains(
                            lower(#[trigger] p.keywords@[k]@),
                            lower(q@),
                        );
                assert forall|x: Pattern| #[trigger] keep(x) == pred(x) by {}
                lemma_select_is_filter(all, keep, pred);
            },
            None => {},
        },
    }
}

/// What the corpus list answers for a tag, over all catalogs and tags: the
/// entries, in catalog order, some tag of which (at any position) equals the
/// requested tag ignoring ASCII case; so every listed entry carries the tag,
/// and an entry carrying it at any position is listed.
pub proof fn law_corpus_tag(all: Seq<CorpusEntry>, t: Seq<char>)
    ensures
        tagged(all, t) == all.filter(
            |e: CorpusEntry|
                exists|k: int| 0 <= k < e.tags.len() && lower(#[trigger] e.tags@[k]@) == lower(t),
        ),
        forall|i: int, k: int|
            #![trigger tagged(all, t).contains(all[i]), all[i].tags@[k]]
            0 <= i < all.len() && 0 <= k < all[i].tags.len() && lower(all[i].tags@[k]@) == lower(t)
                ==> tagged(all, t).contains(all[i]),
        forall|i: int|
            0 <= i < tagged(all, t).len() ==> exists|k: int|
                0 <= k < (#[trigger] tagged(all, t)[i]).tags.len() && lower(
                    tagged(all, t)[i].tags@[k]@,
                ) == lower(t),
{
    let keep = |e: CorpusEntry| has_tag(e, t);
    let pred = |e: CorpusEntry|
        exists|k: int| 0 <= k < e.tags.len() && lower(#[trigger] e.tags@[k]@) == lower(t);
    assert forall|x: CorpusEntry| #[trigger] keep(x) == pred(x) by {}
    lemma_select_is_filter(all, keep, pred);
    assert forall|i: int, k: int|
        #![trigger tagged(all, t).contains(all[i]), all[i].tags@[k]]
        0 <= i < all.len() && 0 <= k < all[i].tags.len() && lower(all[i].tags@[k]@) == lower(t)
        implies tagged(all, t).contains(all[i]) by {
        assert(pred(all[i]));
        all.lemma_filter_contains(pred, i);
    }
    assert forall|i: int| 0 <= i < tagged(all, t).len() implies exists|k: int|
        0 <= k < (#[trigger] tagged(all, t)[i]).tags.len() && lower(
            tagged(all, t)[i].tags@[k]@,
        ) == lower(t) by {
        all.lemma_filter_pred(pred, i);
    }
}

/// One explanation of the error catalog: a regex over error text, and the
/// explanation and fix it leads to.
#[derive(Debug, Clone)]
pub struct ExplainerEntry {
    pub pattern: String,
    pub title: String,
    pub explanation: String,
    pub fix: Option<String>,
}

/// Arguments of `aiken_explain`.
#[derive(Debug, Clone)]
pub struct ExplainRequest {
    pub error: String,
}

/// An explanation found for an error.
#[derive(Debug, Clone)]
pub struct ExplainHit {
    pub title: String,
    pub explanation: String,
    pub fix: Option<String>,
}

/// Answer of `aiken_explain`.
#[derive(Debug, Clone)]
pub struct ExplainResponse {
    pub matched: Option<ExplainHit>,
}

/// A catalog entry with its pattern compiled.
pub struct CompiledExplainer {
    pub regex: CompiledRegex,
    pub entry: ExplainerEntry,
}

/// The entries whose patterns the regex crate accepts, in order.
pub open spec fn valid_entries(es: Seq<ExplainerEntry>) -> Seq<ExplainerEntry> {
    select(es, |e: ExplainerEntry| regex_valid(e.pattern@))
}

/// Compiles the catalog's patterns, dropping the entries whose pattern the
/// regex crate rejects.
pub fn compile_explainers(entries: Vec<ExplainerEntry>) -> (r: Vec<CompiledExplainer>)
    ensures
        r@.map_values(|c: CompiledExplainer| c.entry) == valid_entries(entries@),
        forall|i: int| 0 <= i < r.len() ==> (#[trigger] r@[i]).regex.source() == r@[i].entry.pattern@,
{
    let ghost e0 = entries@;
    assert(e0.len() == entries.len());
    let mut es = entries;
    let mut out: Vec<CompiledExplainer> = Vec::new();
    let mut k: usize = 0;
    while es.len() > 0
        invariant
            k <= e0.len(),
            e0.len() <= usize::MAX,
            es@ == e0.skip(k as int),
            out@.map_values(|c: CompiledExplainer| c.entry) == valid_entries(e0.take(k as int)),
            forall|i: int| 0 <= i < out.len() ==> (#[trigger] out@[i]).regex.source() == out@[i].entry.pattern@,
        decreases es.len(),
    {
        assert(es@.len() == e0.len() - k);
        let e = es.remove(0);
        assert(e == e0[k as int]);
        assert(e0.take(k + 1).drop_last() =~= e0.take(k as int));
        assert(e0.take(k + 1).last() == e);
        let ghost before = out@;
        match compile_regex(e.pattern.as_str()) {
            Some(regex) => {
                out.push(CompiledExplainer { regex, entry: e });
                assert(out@.map_values(|c: CompiledExplainer| c.entry) =~= before.map_values(
                    |c: CompiledExplainer| c.entry,
                ).push(e));
            },
            None => {
                assert(out@ == before);
            },
        }
        assert(out@.map_values(|c: CompiledExplainer| c.entry) =~= valid_entries(e0.take(k + 1)));
        k = k + 1;
        assert(es@ =~= e0.skip(k as int));
    }
    assert(e0.take(k as int) =~= e0);
    out
}

/// The hit an entry gives: its title, explanation and fix.
pub open spec fn hit_of(e: ExplainerEntry, hit: ExplainHit) -> bool {
    hit.title == e.title && hit.explanation == e.explanation && hit.fix == e.fix
}

/// The answer for the pattern answers `answers` (whether each entry's
/// pattern matches the error text, in catalog order): the hit of the first
/// entry whose answer is yes; none when every answer is no.
pub fn explain_from_answers(entries: &Vec<CompiledExplainer>, answers: &Vec<bool>) -> (r: ExplainResponse)
    requires
        answers.len() == entries.len(),
    ensures
        match r.matched {
            Some(hit) => exists|i: int|
                0 <= i < entries.len() && answers@[i] && (forall|j: int|
                    0 <= j < i ==> !#[trigger] answers@[j]) && hit_of(entries@[i].entry, hit),
            None => forall|i: int| 0 <= i < entries.len() ==> !#[trigger] answers@[i],
        },
{
    for i in 0..entries.len()
        invariant
            answers.len() == entries.len(),
            forall|j: int| 0 <= j < i ==> !#[trigger] answers@[j],
    {
        if answers[i] {
            let c = &entries[i];
            let fix = match &c.entry.fix {
                Some(f) => Some(f.clone()),
                None => None,
            };
            let hit = ExplainHit {
                title: c.entry.title.clone(),
                explanation: c.entry.explanation.clone(),
                fix,
            };
            assert(hit_of(entries@[i as int].entry, hit));
            return ExplainResponse { matched: Some(hit) };
        }
    }
    ExplainResponse { matched: None }
}

/// Explains an error: the first entry, in catalog order, whose pattern
/// matches the error text; none when no entry matches.
pub fn handle_explain(entries: &Vec<CompiledExplainer>, req: ExplainRequest) -> (r: ExplainResponse)
    ensures
        match r.matched {
            Some(hit) => exists|i: int|
                0 <= i < entries.len() && regex_matches(entries@[i].regex.source(), req.error@)
                    && (forall|j: int|
                    0 <= j < i ==> !regex_matches(#[trigger] entries@[j].regex.source(), req.error@))
                    && hit_of(entries@[i].entry, hit),
            None => forall|i: int|
                0 <= i < entries.len() ==> !regex_matches(#[trigger] entries@[i].regex.source(), req.error@),
        },
{
    let mut answers: Vec<bool> = Vec::new();
    for i in 0..entries.len()
        invariant
            answers.len() == i,
            forall|j: int|
                0 <= j < i ==> #[trigger] answers@[j] == regex_matches(entries@[j].regex.source(), req.error@),
    {
        answers.push(regex_is_match(&entries[i].regex, req.error.as_str()));
    }
    let r = explain_from_answers(entries, &answers);
    proof {
        assert forall|j: int| 0 <= j < entries.len() implies #[trigger] answers@[j] == regex_matches(
            entries@[j].regex.source(),
            req.error@,
        ) by {}
        if r.matched is Some {
            let hit = r.matched->0;
            {
                let i = choose|i: int|
                    0 <= i < entries.len() && answers@[i] && (forall|j: int|
                        0 <= j < i ==> !#[trigger] answers@[j]) && hit_of(entries@[i].entry, hit);
                assert forall|j: int| 0 <= j < i implies !regex_matches(
                    #[trigger] entries@[j].regex.source(),
                    req.error@,
                ) by {
                    assert(!answers@[j]);
                }
                assert(regex_matches(entries@[i].regex.source(), req.error@));
                assert(hit_of(entries@[i].entry, hit));
                assert(exists|k: int|
                    0 <= k < entries.len() && regex_matches(entries@[k].regex.source(), req.error@)
                        && (forall|j: int|
                        0 <= j < k ==> !regex_matches(#[trigger] entries@[j].regex.source(), req.error@))
                        && hit_of(entries@[k].entry, hit));
            }
        } else {
            assert forall|i: int| 0 <= i < entries.len() implies !regex_matches(
                #[trigger] entries@[i].regex.source(),
                req.error@,
            ) by {
                assert(!answers@[i]);
            }
        }
    }
    r
}

} // verus!

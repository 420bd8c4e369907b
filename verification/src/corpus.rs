//! Corpus search over reference Aiken codebases with ripgrep.
//!
//! The search runs `rg` over each root directory; the library builds its
//! arguments, parses the `<path>:<line>:<text>` lines it prints, and keeps the
//! first `max_hits` hits.

use vstd::prelude::*;
use crate::text::min;
use crate::text::{
    char_lines, decimal, decimal_string, find_char, index_of, lines, parse_unsigned,
    parse_unsigned_chars, slice_of, str_chars, str_lines, string_from_chars, };
use crate::parse::string_views;

verus! {

/// One line that ripgrep matched.
#[derive(Debug, Clone)]
pub struct CorpusHit {
    pub corpus: String,
    pub file: String,
    pub line: u32,
    pub snippet: String,
}

/// A hit as plain values: corpus, file, line, snippet.
pub type HitModel = (Seq<char>, Seq<char>, nat, Seq<char>);

/// What the library records of a hit.
pub open spec fn hit_model(h: CorpusHit) -> HitModel {
    (h.corpus@, h.file@, h.line as nat, h.snippet@)
}

/// What the library records of each hit.
pub open spec fn hit_models(hs: Seq<CorpusHit>) -> Seq<HitModel> {
    hs.map_values(|h: CorpusHit| hit_model(h))
}

/// A ripgrep output line read as `<path>:<line>:<text>`: the path runs to
/// the first `:`, the line number to the second, and the text is the rest;
/// `None` when there are fewer than two colons or the line number is not a
/// `u32`.
pub open spec fn rg_line(line: Seq<char>, root: Seq<char>) -> Option<HitModel> {
    let i = index_of(line, ':') as int;
    let rest = line.skip(i + 1);
    let j = index_of(rest, ':') as int;
    if i < line.len() && j < rest.len() {
        match parse_unsigned(rest.take(j), u32::MAX as nat) {
            Some(n) => Some((root, line.take(i), n, rest.skip(j + 1))),
            None => None,
        }
    } else {
        None
    }
}

/// Parses one ripgrep output line found under `root`.
pub fn parse_rg_line(line: &str, root: &str) -> (r: Option<CorpusHit>)
    ensures
        match rg_line(line@, root@) {
            Some(m) => r matches Some(h) && hit_model(h) == m,
            None => r is None,
        },
{
    let s = str_chars(line);
    let i = find_char(&s, ':', 0);
    assert(s@.skip(0) =~= s@);
    if i == s.len() {
        return None;
    }
    let j = find_char(&s, ':', i + 1);
    let ghost rest = s@.skip(i + 1);
    if j == s.len() {
        return None;
    }
    assert(rest.take(j - i - 1) =~= s@.subrange(i + 1, j as int));
    assert(rest.skip(j - i) =~= s@.subrange(j + 1, s.len() as int));
    assert(s@.take(i as int) =~= s@.subrange(0, i as int));
    let num = slice_of(&s, i + 1, j);
    let n = match parse_unsigned_chars(&num, 0xffff_ffff) {
        Some(n) => n,
        None => {
            return None;
        },
    };
    Some(
        CorpusHit {
            corpus: root.to_owned(),
            file: string_from_chars(slice_of(&s, 0, i).as_slice()),
            line: n as u32,
            snippet: string_from_chars(slice_of(&s, j + 1, s.len()).as_slice()),
        },
    )
}

/// The hits of a sequence of output lines, in order.
pub open spec fn rg_hits(ls: Seq<Seq<char>>, root: Seq<char>) -> Seq<HitModel>
    decreases ls.len(),
{
    if ls.len() == 0 {
        Seq::empty()
    } else {
        rg_hits(ls.drop_last(), root) + match rg_line(ls.last(), root) {
            Some(h) => seq![h],
            None => Seq::empty(),
        }
    }
}

/// The larger of two integers.
pub open spec fn max(a: int, b: int) -> int {
    if a <= b {
        b
    } else {
        a
    }
}

/// Appends to `hits` the hits that ripgrep's `stdout` for `root` holds, in
/// order, stopping once `hits` holds `max_hits`.
pub fn collect_rg_hits(hits: &mut Vec<CorpusHit>, stdout: &str, root: &str, max_hits: usize)
    ensures
        hit_models(final(hits)@) == hit_models(old(hits)@) + rg_hits(lines(stdout@), root@).take(
            min(
                max(max_hits - old(hits)@.len(), 0),
                rg_hits(lines(stdout@), root@).len() as int,
            ),
        ),
        old(hits)@.len() <= max_hits ==> final(hits)@.len() <= max_hits,
{
    let ls = str_lines(stdout);
    let ghost ll = char_lines(ls@);
    let ghost start = hit_models(hits@);
    let ghost all = rg_hits(ll, root@);
    let ghost room = max(max_hits - hits@.len(), 0);
    proof {
        lemma_rg_hits_prefix(ll, root@, 0);
        assert(ll.take(0) =~= Seq::<Seq<char>>::empty());
    }
    if hits.len() >= max_hits {
        assert(all.take(0) =~= Seq::<HitModel>::empty());
        assert(start + all.take(0) =~= start);
        return;
    }
    for i in 0..ls.len()
        invariant
            ll == char_lines(ls@),
            ll == lines(stdout@),
            all == rg_hits(ll, root@),
            start == hit_models(old(hits)@),
            room == max_hits - old(hits)@.len(),
            room > 0,
            hit_models(hits@) == start + rg_hits(ll.take(i as int), root@),
            hits@.len() < max_hits,
    {
        assert(ll.take(i + 1).drop_last() =~= ll.take(i as int));
        assert(ll.take(i + 1).last() == ls@[i as int]@);
        let ghost before = hits@;
        let line = string_from_chars(ls[i].as_slice());
        match parse_rg_line(line.as_str(), root) {
            Some(hit) => {
                hits.push(hit);
                assert(hit_models(hits@) =~= hit_models(before).push(hit_model(hit)));
            },
            None => {},
        }
        assert(hit_models(hits@) =~= start + rg_hits(ll.take(i + 1), root@));
        if hits.len() >= max_hits {
            proof {
                lemma_rg_hits_prefix(ll, root@, i + 1);
                let mi = rg_hits(ll.take(i + 1), root@);
                assert(mi.len() == room);
                assert(all.take(room) =~= mi);
            }
            return;
        }
    }
    assert(ll.take(ls.len() as int) =~= ll);
    assert(all.take(all.len() as int) =~= all);
}

/// Each well-formed ripgrep line yields its own hit, in order, whatever file
/// it names: the hits of a run's lines are the lines' readings with the
/// ill-formed lines left out, as many as there are well-formed lines, and
/// every well-formed line's reading is among them (two lines of one file
/// give two hits).
pub proof fn law_rg_hits_one_per_line(ls: Seq<Seq<char>>, root: Seq<char>)
    ensures
        rg_hits(ls, root) == ls.filter_map(|l: Seq<char>| rg_line(l, root)),
        rg_hits(ls, root).len() == ls.filter(|l: Seq<char>| rg_line(l, root) is Some).len(),
        forall|k: int|
            0 <= k < ls.len() && (#[trigger] rg_line(ls[k], root)) is Some ==> rg_hits(
                ls,
                root,
            ).contains(rg_line(ls[k], root)->0),
    decreases ls.len(),
{
    reveal(Seq::filter);
    if ls.len() > 0 {
        let p = ls.drop_last();
        law_rg_hits_one_per_line(p, root);
        let f = |l: Seq<char>| rg_line(l, root);
        assert(rg_hits(ls, root) =~= ls.filter_map(f));
        assert forall|k: int|
            0 <= k < ls.len() && (#[trigger] rg_line(ls[k], root)) is Some implies rg_hits(
                ls,
                root,
            ).contains(rg_line(ls[k], root)->0) by {
            let h = rg_line(ls[k], root)->0;
            if k < ls.len() - 1 {
                assert(p[k] == ls[k]);
                let j = choose|j: int| 0 <= j < rg_hits(p, root).len() && rg_hits(p, root)[j] == h;
                assert(rg_hits(ls, root)[j] == h);
            } else {
                assert(ls[k] == ls.last());
                assert(rg_hits(ls, root)[rg_hits(ls, root).len() - 1] == h);
            }
        }
    } else {
        assert(rg_hits(ls, root) =~= ls.filter_map(|l: Seq<char>| rg_line(l, root)));
    }
}

/// A run adds as many hits as it has well-formed lines, up to the room left
/// below the limit: `min(room, well-formed lines)`, where the room is the
/// limit less the hits already held (none when they reach it).
pub proof fn law_run_adds_up_to_room(
    before: Seq<CorpusHit>,
    after: Seq<CorpusHit>,
    stdout: Seq<char>,
    root: Seq<char>,
    max_hits: usize,
)
    requires
        hit_models(after) == hit_models(before) + rg_hits(lines(stdout), root).take(
            min(max(max_hits - before.len(), 0), rg_hits(lines(stdout), root).len() as int),
        ),
    ensures
        ({
            let room: int = if before.len() < max_hits { max_hits - before.len() } else { 0 };
            let good: int = lines(stdout).filter(|l: Seq<char>| rg_line(l, root) is Some).len() as int;
            after.len() == before.len() + if room < good { room } else { good }
        }),
        forall|i: int| 0 <= i < before.len() ==> #[trigger] hit_model(after[i]) == hit_model(before[i]),
{
    law_rg_hits_one_per_line(lines(stdout), root);
    assert(hit_models(after).len() == after.len());
    assert forall|i: int| 0 <= i < before.len() implies #[trigger] hit_model(after[i]) == hit_model(before[i]) by {
        assert(hit_models(after)[i] == hit_models(before)[i]);
    }
}

/// The hits of several ripgrep runs, run by run in order; each run is a
/// root and ripgrep's stdout for it.
pub open spec fn all_rg_hits(runs: Seq<(Seq<char>, Seq<char>)>) -> Seq<HitModel>
    decreases runs.len(),
{
    if runs.len() == 0 {
        Seq::empty()
    } else {
        all_rg_hits(runs.drop_last()) + rg_hits(lines(runs.last().1), runs.last().0)
    }
}

/// The root and output of each run.
pub open spec fn run_views(runs: Seq<(String, String)>) -> Seq<(Seq<char>, Seq<char>)> {
    runs.map_values(|r: (String, String)| (r.0@, r.1@))
}

/// The first `m` items of `a + b` are the first `m` of `a`, then as many of
/// `b` as there is room left for.
proof fn lemma_take_concat(a: Seq<HitModel>, b: Seq<HitModel>, m: int)
    requires
        m >= 0,
    ensures
        a.take(min(m, a.len() as int)) + b.take(
            min(max(m - min(m, a.len() as int), 0), b.len() as int),
        ) == (a + b).take(min(m, (a + b).len() as int)),
{
    assert(a.take(min(m, a.len() as int)) + b.take(
        min(max(m - min(m, a.len() as int), 0), b.len() as int),
    ) =~= (a + b).take(min(m, (a + b).len() as int)));
}

/// The hits of a search over several roots: the hits of each root's
/// ripgrep output (`runs` holds each root with its output), root by root
/// in order, at most `max_hits` in all.
pub fn search_hits(runs: &Vec<(String, String)>, max_hits: usize) -> (hits: Vec<CorpusHit>)
    ensures
        hit_models(hits@) == all_rg_hits(run_views(runs@)).take(
            min(max_hits as int, all_rg_hits(run_views(runs@)).len() as int),
        ),
        hits@.len() <= max_hits,
{
    let mut hits: Vec<CorpusHit> = Vec::new();
    let ghost rv = run_views(runs@);
    assert(hit_models(hits@) =~= all_rg_hits(rv.take(0)).take(0));
    for i in 0..runs.len()
        invariant
            rv == run_views(runs@),
            hits@.len() <= max_hits,
            hit_models(hits@) == all_rg_hits(rv.take(i as int)).take(
                min(max_hits as int, all_rg_hits(rv.take(i as int)).len() as int),
            ),
    {
        let ghost before = hit_models(hits@);
        let ghost a = all_rg_hits(rv.take(i as int));
        let (root, out) = &runs[i];
        collect_rg_hits(&mut hits, out.as_str(), root.as_str(), max_hits);
        proof {
            assert(rv.take(i + 1).drop_last() =~= rv.take(i as int));
            assert(rv.take(i + 1).last() == (root@, out@));
            let b = rg_hits(lines(out@), root@);
            assert(all_rg_hits(rv.take(i + 1)) == a + b);
            lemma_take_concat(a, b, max_hits as int);
        }
    }
    assert(rv.take(runs.len() as int) =~= rv);
    hits
}

proof fn lemma_rg_hits_prefix(ls: Seq<Seq<char>>, root: Seq<char>, k: int)
    requires
        0 <= k <= ls.len(),
    ensures
        rg_hits(ls.take(k), root).len() <= rg_hits(ls, root).len(),
        rg_hits(ls, root).take(rg_hits(ls.take(k), root).len() as int) == rg_hits(ls.take(k), root),
    decreases ls.len() - k,
{
    if k < ls.len() {
        lemma_rg_hits_prefix(ls.drop_last(), root, k);
        assert(ls.drop_last().take(k) =~= ls.take(k));
        let a = rg_hits(ls.take(k), root);
        let b = rg_hits(ls.drop_last(), root);
        assert(rg_hits(ls, root).take(a.len() as int) =~= b.take(a.len() as int));
    } else {
        assert(ls.take(k) =~= ls);
        assert(rg_hits(ls, root).take(rg_hits(ls, root).len() as int) =~= rg_hits(ls, root));
    }
}

/// A ripgrep output line built from a path without colons, a line number
/// and any text reads back as exactly that hit.
pub proof fn law_rg_line_round_trip(file: Seq<char>, n: nat, snippet: Seq<char>, root: Seq<char>)
    requires
        n <= u32::MAX,
        forall|k: int| 0 <= k < file.len() ==> #[trigger] file[k] != ':',
    ensures
        rg_line(file + seq![':'] + decimal(n) + seq![':'] + snippet, root) == Some(
            (root, file, n, snippet),
        ),
{
    let line = file + seq![':'] + decimal(n) + seq![':'] + snippet;
    crate::text::lemma_decimal(n);
    crate::text::lemma_index_of(line, ':', file.len() as int);
    let rest = line.skip(file.len() as int + 1);
    assert(rest =~= decimal(n) + seq![':'] + snippet);
    assert forall|k: int| 0 <= k < decimal(n).len() implies #[trigger] rest[k] != ':' by {
        assert(rest[k] == decimal(n)[k]);
        assert(crate::text::is_digit(decimal(n)[k]));
    }
    crate::text::lemma_index_of(rest, ':', decimal(n).len() as int);
    assert(line.take(file.len() as int) =~= file);
    assert(rest.take(decimal(n).len() as int) =~= decimal(n));
    assert(rest.skip(decimal(n).len() as int + 1) =~= snippet);
    crate::text::law_decimal_round_trip(n, u32::MAX as nat);
}

/// `str::split` on one character: the pieces between the separators, in
/// order (one piece when there is no separator).
pub open spec fn split_on(s: Seq<char>, c: char) -> Seq<Seq<char>>
    decreases s.len(),
{
    let i = index_of(s, c) as int;
    if i < s.len() {
        seq![s.take(i)] + split_on(s.skip(i + 1), c)
    } else {
        seq![s]
    }
}

/// The non-empty pieces of `ps`, in order.
pub open spec fn non_empty(ps: Seq<Seq<char>>) -> Seq<Seq<char>>
    decreases ps.len(),
{
    if ps.len() == 0 {
        Seq::empty()
    } else {
        non_empty(ps.drop_last()) + if ps.last().len() > 0 {
            seq![ps.last()]
        } else {
            Seq::empty()
        }
    }
}

proof fn lemma_index_of_bound(s: Seq<char>, c: char)
    ensures
        index_of(s, c) <= s.len(),
        index_of(s, c) < s.len() ==> s[index_of(s, c) as int] == c,
        forall|k: int| 0 <= k < index_of(s, c) ==> #[trigger] s[k] != c,
    decreases s.len(),
{
    if s.len() > 0 && s[0] != c {
        lemma_index_of_bound(s.drop_first(), c);
        assert forall|k: int| 0 <= k < index_of(s, c) implies #[trigger] s[k] != c by {
            if k > 0 {
                assert(s[k] == s.drop_first()[k - 1]);
            }
        }
    }
}

proof fn lemma_non_empty_single(x: Seq<char>)
    ensures
        non_empty(seq![x]) == if x.len() > 0 {
            seq![x]
        } else {
            Seq::<Seq<char>>::empty()
        },
{
    let s = seq![x];
    assert(s.drop_last() =~= Seq::<Seq<char>>::empty());
    assert(s.last() == x);
    assert(non_empty(s.drop_last()) =~= Seq::<Seq<char>>::empty());
    if x.len() > 0 {
        assert(non_empty(s) =~= seq![x]);
    } else {
        assert(non_empty(s) =~= Seq::<Seq<char>>::empty());
    }
}

proof fn lemma_non_empty_append(a: Seq<Seq<char>>, b: Seq<Seq<char>>)
    ensures
        non_empty(a + b) == non_empty(a) + non_empty(b),
    decreases b.len(),
{
    if b.len() == 0 {
        assert(a + b =~= a);
        assert(non_empty(a) + non_empty(b) =~= non_empty(a));
    } else {
        assert((a + b).drop_last() =~= a + b.drop_last());
        lemma_non_empty_append(a, b.drop_last());
        assert(non_empty(a + b) =~= non_empty(a) + non_empty(b));
    }
}

/// Splits a `:`-separated list of paths, as in `AIKEN_MCP_CORPUS`, dropping
/// empty entries.
pub fn split_path_list(raw: &str) -> (r: Vec<String>)
    ensures
        string_views(r@) == non_empty(split_on(raw@, ':')),
{
    let s = str_chars(raw);
    let mut out: Vec<String> = Vec::new();
    let mut start: usize = 0;
    let ghost n = s.len() as int;
    assert(s@.subrange(0, n) =~= s@);
    assert(string_views(out@) =~= Seq::<Seq<char>>::empty());
    loop
        invariant
            start <= s.len(),
            n == s.len(),
            s@ == raw@,
            non_empty(split_on(s@, ':')) == string_views(out@) + non_empty(
                split_on(s@.subrange(start as int, n), ':'),
            ),
        decreases s.len() - start,
    {
        let k = find_char(&s, ':', start);
        let ghost t = s@.subrange(start as int, n);
        assert(s@.skip(start as int) =~= t);
        let piece = slice_of(&s, start, k);
        assert(piece@ =~= t.take(k - start));
        let ghost before = string_views(out@);
        if piece.len() > 0 {
            let p = string_from_chars(piece.as_slice());
            out.push(p);
            assert(string_views(out@) =~= before.push(p@));
        }
        if k == s.len() {
            assert(split_on(t, ':') == seq![t]);
            proof {
                lemma_non_empty_single(t);
                assert(t.take(k - start) =~= t);
            }
            assert(string_views(out@) =~= before + non_empty(seq![t]));
            assert(non_empty(split_on(s@, ':')) == before + non_empty(split_on(t, ':')));
            assert(non_empty(split_on(raw@, ':')) == string_views(out@));
            return out;
        }
        proof {
            assert(t.skip(k - start + 1) =~= s@.subrange(k + 1, n));
            assert(split_on(t, ':') == seq![t.take(k - start)] + split_on(s@.subrange(k + 1, n), ':'));
            lemma_non_empty_append(seq![t.take(k - start)], split_on(s@.subrange(k + 1, n), ':'));
            lemma_non_empty_single(t.take(k - start));
            assert(non_empty(split_on(s@, ':')) =~= string_views(out@) + non_empty(
                split_on(s@.subrange(k + 1, n), ':'),
            ));
        }
        start = k + 1;
    }
}

/// Corpus search with ripgrep over a fixed list of root directories.
#[derive(Debug, Clone)]
pub struct RipgrepCorpus {
    roots: Vec<String>,
}

impl RipgrepCorpus {
    /// The roots this corpus searches.
    pub closed spec fn root_paths(&self) -> Seq<Seq<char>> {
        string_views(self.roots@)
    }

    /// A corpus over the given roots.
    pub fn new(roots: Vec<String>) -> (r: Self)
        ensures
            r.root_paths() == string_views(roots@),
    {
        RipgrepCorpus { roots }
    }

    /// The roots this corpus searches.
    pub fn roots(&self) -> (r: &Vec<String>)
        ensures
            string_views(r@) == self.root_paths(),
    {
        &self.roots
    }
}

/// The arguments of the ripgrep run over one root: file name and line number
/// on every hit, `.ak` files only, at most `max_hits` hits per file, and the
/// query taken literally as the pattern.
pub open spec fn rg_arguments(query: Seq<char>, max_hits: nat, root: Seq<char>) -> Seq<Seq<char>> {
    seq![
        "--no-heading"@,
        "--with-filename"@,
        "--line-number"@,
        "--glob"@,
        "*.ak"@,
        "--max-count"@,
        decimal(max_hits),
        "--"@,
        query,
        root,
    ]
}

/// Builds the arguments of the ripgrep run over one root.
pub fn rg_args(query: &str, max_hits: usize, root: &str) -> (r: Vec<String>)
    ensures
        string_views(r@) == rg_arguments(query@, max_hits as nat, root@),
{
    let mut v: Vec<String> = Vec::new();
    v.push("--no-heading".to_owned());
    v.push("--with-filename".to_owned());
    v.push("--line-number".to_owned());
    v.push("--glob".to_owned());
    v.push("*.ak".to_owned());
    v.push("--max-count".to_owned());
    v.push(decimal_string(max_hits as u64));
    v.push("--".to_owned());
    v.push(query.to_owned());
    v.push(root.to_owned());
    assert(string_views(v@) =~= rg_arguments(query@, max_hits as nat, root@));
    v
}

} // verus!

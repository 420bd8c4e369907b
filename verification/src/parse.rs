//! Parsing of the Aiken CLI's human-oriented output.
//!
//! The parsers are best-effort: they pick out the lines whose shape is stable
//! enough (`error:` / `warning:` diagnostics, `PASS` / `FAIL` test lines,
//! lines naming `plutus.json`) and ignore everything else.

use vstd::prelude::*;
use crate::diagnostic::{Diagnostic, Severity};
use crate::runner::TestResult;
use crate::text::{
    contains, contains_chars, first_word, first_word_chars, find_char, index_of,
    char_lines, has_prefix, lines, parse_unsigned, parse_unsigned_chars, slice_of, str_chars,
    str_lines, string_from_chars, strip_prefix_chars, trim, trim_bounds, trim_start,
    trim_start_index, trimmed, word_bounds, ws_index,
};

verus! {

/// The prefix that marks an error line.
pub open spec fn error_tag() -> Seq<char> {
    seq!['e', 'r', 'r', 'o', 'r', ':']
}

/// The prefix that marks a warning line.
pub open spec fn warning_tag() -> Seq<char> {
    seq!['w', 'a', 'r', 'n', 'i', 'n', 'g', ':']
}

/// The prefix of a passing test line.
pub open spec fn pass_tag() -> Seq<char> {
    seq!['P', 'A', 'S', 'S', ' ']
}

/// The prefix of a failing test line.
pub open spec fn fail_tag() -> Seq<char> {
    seq!['F', 'A', 'I', 'L', ' ']
}

/// The file name that marks an artifact line.
pub open spec fn plutus_json() -> Seq<char> {
    seq!['p', 'l', 'u', 't', 'u', 's', '.', 'j', 's', 'o', 'n']
}

/// What one output line says as a diagnostic: after leading whitespace, an
/// `error:` or `warning:` tag, then the message, trimmed.
pub open spec fn diag_of_line(line: Seq<char>) -> Option<(Severity, Seq<char>)> {
    let t = trim_start(line);
    if has_prefix(t, error_tag()) {
        Some((Severity::Error, trim(t.skip(error_tag().len() as int))))
    } else if has_prefix(t, warning_tag()) {
        Some((Severity::Warning, trim(t.skip(warning_tag().len() as int))))
    } else {
        None
    }
}

/// The diagnostics of a sequence of lines, in order.
pub open spec fn diags_of(ls: Seq<Seq<char>>) -> Seq<(Severity, Seq<char>)>
    decreases ls.len(),
{
    if ls.len() == 0 {
        Seq::empty()
    } else {
        diags_of(ls.drop_last()) + match diag_of_line(ls.last()) {
            Some(d) => seq![d],
            None => Seq::empty(),
        }
    }
}

/// The severity and message of each diagnostic.
pub open spec fn diag_views(ds: Seq<Diagnostic>) -> Seq<(Severity, Seq<char>)> {
    ds.map_values(|d: Diagnostic| (d.severity, d.message@))
}

/// No diagnostic carries a span or a code.
pub open spec fn all_plain(ds: Seq<Diagnostic>) -> bool {
    forall|i: int| 0 <= i < ds.len() ==> #[trigger] ds[i].span is None && ds[i].code is None
}

/// `ds` holds exactly the diagnostics `model`, in order, with no span or code.
pub open spec fn diags_are(ds: Seq<Diagnostic>, model: Seq<(Severity, Seq<char>)>) -> bool {
    diag_views(ds) == model && all_plain(ds)
}

/// The diagnostic that one line carries, if any.
pub fn try_parse_diag_line(line: &Vec<char>) -> (r: Option<Diagnostic>)
    ensures
        match diag_of_line(line@) {
            Some(d) => r matches Some(x) && x.is_plain(d.0, d.1),
            None => r is None,
        },
{
    let start = trim_start_index(line);
    let t = slice_of(line, start, line.len());
    assert(t@ == trim_start(line@)) by {
        assert(line@.skip(start as int) =~= line@.subrange(start as int, line.len() as int));
    }
    let error = str_chars("error:");
    let warning = str_chars("warning:");
    proof {
        reveal_strlit("error:");
        reveal_strlit("warning:");
        assert(error@ =~= error_tag());
        assert(warning@ =~= warning_tag());
    }
    let (severity, rest) = match strip_prefix_chars(&t, &error) {
        Some(rest) => (Severity::Error, rest),
        None => match strip_prefix_chars(&t, &warning) {
            Some(rest) => (Severity::Warning, rest),
            None => {
                return None;
            },
        },
    };
    let (a, b) = trim_bounds(&rest);
    let message = string_from_chars(slice_of(&rest, a, b).as_slice());
    Some(Diagnostic::plain(severity, message))
}

/// Appends the diagnostics found in `ls` to `out`.
fn push_line_diags(out: &mut Vec<Diagnostic>, ls: &Vec<Vec<char>>)
    requires
        all_plain(old(out)@),
    ensures
        diag_views(final(out)@) == diag_views(old(out)@) + diags_of(char_lines(ls@)),
        all_plain(final(out)@),
{
    let ghost start = diag_views(out@);
    let ghost ll = char_lines(ls@);
    for i in 0..ls.len()
        invariant
            ll == char_lines(ls@),
            diag_views(out@) == start + diags_of(ll.take(i as int)),
            all_plain(out@),
    {
        assert(ll.take(i + 1).drop_last() =~= ll.take(i as int));
        assert(ll.take(i + 1).last() == ls@[i as int]@);
        let ghost before = out@;
        match try_parse_diag_line(&ls[i]) {
            Some(d) => {
                out.push(d);
                assert(diag_views(out@) =~= diag_views(before).push((d.severity, d.message@)));
            },
            None => {},
        }
        assert(diag_views(out@) =~= start + diags_of(ll.take(i + 1)));
    }
    assert(ll.take(ls.len() as int) =~= ll);
}

proof fn lemma_diags_of_append(a: Seq<Seq<char>>, b: Seq<Seq<char>>)
    ensures
        diags_of(a + b) == diags_of(a) + diags_of(b),
    decreases b.len(),
{
    if b.len() == 0 {
        assert(a + b =~= a);
        assert(diags_of(a) + diags_of(b) =~= diags_of(a));
    } else {
        assert((a + b).drop_last() =~= a + b.drop_last());
        lemma_diags_of_append(a, b.drop_last());
        assert(diags_of(a + b) =~= diags_of(a) + diags_of(b));
    }
}

/// Best-effort extraction of diagnostics from `aiken check` output: every
/// `error:` / `warning:` line of stdout, then of stderr.
pub fn parse_check(stdout: &str, stderr: &str) -> (out: Vec<Diagnostic>)
    ensures
        diags_are(out@, diags_of(lines(stdout@) + lines(stderr@))),
{
    let mut out: Vec<Diagnostic> = Vec::new();
    let a = str_lines(stdout);
    let b = str_lines(stderr);
    assert(diag_views(out@) =~= Seq::empty());
    push_line_diags(&mut out, &a);
    push_line_diags(&mut out, &b);
    proof {
        lemma_diags_of_append(lines(stdout@), lines(stderr@));
        assert(diag_views(out@) =~= diags_of(lines(stdout@) + lines(stderr@)));
    }
    out
}

/// The key of the memory figure in a budget block.
pub open spec fn mem_key() -> Seq<char> {
    seq!['m', 'e', 'm', ':']
}

/// The key of the CPU figure in a budget block.
pub open spec fn cpu_key() -> Seq<char> {
    seq!['c', 'p', 'u', ':']
}

/// A bracketed block at the start of `s` (after leading whitespace): the
/// text between `[` and the first `]`, and the text after that `]`.
pub open spec fn bracket_block(s: Seq<char>) -> Option<(Seq<char>, Seq<char>)> {
    let t = trim_start(s);
    let j = index_of(t, ']');
    if t.len() > 0 && t[0] == '[' && j < t.len() {
        Some((t.subrange(1, j as int), t.skip(j + 1int)))
    } else {
        None
    }
}

/// The figures of a budget block's inside, `mem: <m>, cpu: <c>`: the part
/// before the first comma is `mem:` and an unsigned number, the part after it
/// is `cpu:` and an unsigned number, with whitespace allowed around each
/// part and number, and each number fitting in a `u64`.
pub open spec fn budget_figures(inner: Seq<char>) -> Option<(u64, u64)> {
    let c = index_of(inner, ',');
    let a = trim(inner.take(c as int));
    let b = trim(inner.skip(c + 1int));
    if c < inner.len() && has_prefix(a, mem_key()) && has_prefix(b, cpu_key()) {
        match (
            parse_unsigned(trim(a.skip(mem_key().len() as int)), u64::MAX as nat),
            parse_unsigned(trim(b.skip(cpu_key().len() as int)), u64::MAX as nat),
        ) {
            (Some(m), Some(p)) => Some((m as u64, p as u64)),
            _ => None,
        }
    } else {
        None
    }
}

/// The text after the first word of `s`.
pub open spec fn after_first_word(s: Seq<char>) -> Seq<char> {
    let t = trim_start(s);
    t.skip(ws_index(t) as int)
}

/// The test's name in the text after a `PASS ` / `FAIL ` tag: the first word
/// after a leading budget block when there is one, else the first word.
pub open spec fn test_name(rest: Seq<char>) -> Seq<char> {
    match bracket_block(rest) {
        Some((_, after)) => first_word(after),
        None => first_word(rest),
    }
}

/// The budget figures in the text after a `PASS ` / `FAIL ` tag: those of a
/// budget block that comes before the name or right after it.
pub open spec fn test_budget(rest: Seq<char>) -> Option<(u64, u64)> {
    match bracket_block(rest) {
        Some((inner, _)) => budget_figures(inner),
        None => match bracket_block(after_first_word(rest)) {
            Some((inner, _)) => budget_figures(inner),
            None => None,
        },
    }
}

/// The view of one test result: name, outcome, memory and CPU figures.
pub open spec fn test_entry(rest: Seq<char>, passed: bool) -> (
    Seq<char>,
    bool,
    Option<u64>,
    Option<u64>,
) {
    match test_budget(rest) {
        Some((m, c)) => (test_name(rest), passed, Some(m), Some(c)),
        None => (test_name(rest), passed, None, None),
    }
}

/// What one output line says as a test result: after trimming, `PASS ` or
/// `FAIL `, then the test's name and, where the line reports them in a
/// `[mem: <m>, cpu: <c>]` block before or after the name, its budget figures.
pub open spec fn test_of_line(line: Seq<char>) -> Option<(Seq<char>, bool, Option<u64>, Option<u64>)> {
    let t = trim(line);
    if has_prefix(t, pass_tag()) {
        Some(test_entry(t.skip(pass_tag().len() as int), true))
    } else if has_prefix(t, fail_tag()) {
        Some(test_entry(t.skip(fail_tag().len() as int), false))
    } else {
        None
    }
}

/// The test results of a sequence of lines, in order.
pub open spec fn tests_of(ls: Seq<Seq<char>>) -> Seq<(Seq<char>, bool, Option<u64>, Option<u64>)>
    decreases ls.len(),
{
    if ls.len() == 0 {
        Seq::empty()
    } else {
        tests_of(ls.drop_last()) + match test_of_line(ls.last()) {
            Some(t) => seq![t],
            None => Seq::empty(),
        }
    }
}

/// The name, outcome and budget figures of each test result.
pub open spec fn test_views(ts: Seq<TestResult>) -> Seq<(Seq<char>, bool, Option<u64>, Option<u64>)> {
    ts.map_values(|t: TestResult| (t.name@, t.passed, t.mem, t.cpu))
}

/// No test result carries a message.
pub open spec fn no_message(ts: Seq<TestResult>) -> bool {
    forall|i: int| 0 <= i < ts.len() ==> #[trigger] ts[i].message is None
}

/// The bracketed block at the start of `s`, as `bracket_block` gives it.
fn bracket_block_chars(s: &Vec<char>) -> (r: Option<(Vec<char>, Vec<char>)>)
    ensures
        match bracket_block(s@) {
            Some((inner, after)) => r matches Some(x) && x.0@ == inner && x.1@ == after,
            None => r is None,
        },
{
    let a = trim_start_index(s);
    let j = find_char(s, ']', a);
    let ghost t = s@.skip(a as int);
    if a < s.len() && s[a] == '[' && j < s.len() {
        assert(t[0] == s@[a as int]);
        assert(j > a);
        let inner = slice_of(s, a + 1, j);
        let after = slice_of(s, j + 1, s.len());
        assert(inner@ =~= t.subrange(1, (j - a) as int));
        assert(after@ =~= t.skip((j - a) + 1));
        Some((inner, after))
    } else {
        proof {
            if t.len() > 0 {
                assert(t[0] == s@[a as int]);
            }
        }
        None
    }
}

/// The figures of a budget block's inside, as `budget_figures` gives them.
fn budget_figures_chars(inner: &Vec<char>, mem: &Vec<char>, cpu: &Vec<char>) -> (r: Option<(u64, u64)>)
    requires
        mem@ == mem_key(),
        cpu@ == cpu_key(),
    ensures
        r == budget_figures(inner@),
{
    let c = find_char(inner, ',', 0);
    assert(inner@.skip(0) =~= inner@);
    if c == inner.len() {
        return None;
    }
    let a_raw = slice_of(inner, 0, c);
    let b_raw = slice_of(inner, c + 1, inner.len());
    assert(a_raw@ =~= inner@.take(c as int));
    assert(b_raw@ =~= inner@.skip(c + 1));
    let a = trimmed(&a_raw);
    let b = trimmed(&b_raw);
    let ma = match strip_prefix_chars(&a, mem) {
        Some(x) => x,
        None => {
            return None;
        },
    };
    let mb = match strip_prefix_chars(&b, cpu) {
        Some(x) => x,
        None => {
            return None;
        },
    };
    let m = match parse_unsigned_chars(&trimmed(&ma), u64::MAX) {
        Some(v) => v,
        None => {
            return None;
        },
    };
    let p = match parse_unsigned_chars(&trimmed(&mb), u64::MAX) {
        Some(v) => v,
        None => {
            return None;
        },
    };
    Some((m, p))
}

/// The name and budget figures in the text after a `PASS ` / `FAIL ` tag.
fn name_and_budget(rest: &Vec<char>, mem: &Vec<char>, cpu: &Vec<char>) -> (r: (
    Vec<char>,
    Option<(u64, u64)>,
))
    requires
        mem@ == mem_key(),
        cpu@ == cpu_key(),
    ensures
        r.0@ == test_name(rest@),
        r.1 == test_budget(rest@),
{
    match bracket_block_chars(rest) {
        Some((inner, after)) => (first_word_chars(&after), budget_figures_chars(&inner, mem, cpu)),
        None => {
            let name = first_word_chars(rest);
            let (a, b) = word_bounds(rest);
            let tail = slice_of(rest, b, rest.len());
            assert(tail@ =~= after_first_word(rest@));
            let budget = match bracket_block_chars(&tail) {
                Some((inner, _)) => budget_figures_chars(&inner, mem, cpu),
                None => None,
            };
            (name, budget)
        },
    }
}

/// The test result that one line carries, if any.
fn try_parse_test_line(line: &Vec<char>, pass: &Vec<char>, fail: &Vec<char>, mem: &Vec<char>, cpu: &Vec<char>) -> (r: Option<
    TestResult,
>)
    requires
        pass@ == pass_tag(),
        fail@ == fail_tag(),
        mem@ == mem_key(),
        cpu@ == cpu_key(),
    ensures
        match test_of_line(line@) {
            Some(t) => r matches Some(x) && (x.name@, x.passed, x.mem, x.cpu) == t
                && x.message is None,
            None => r is None,
        },
{
    let t = trimmed(line);
    let (rest, passed) = match strip_prefix_chars(&t, pass) {
        Some(rest) => (rest, true),
        None => match strip_prefix_chars(&t, fail) {
            Some(rest) => (rest, false),
            None => {
                return None;
            },
        },
    };
    let (name, budget) = name_and_budget(&rest, mem, cpu);
    let (m, c) = match budget {
        Some((m, c)) => (Some(m), Some(c)),
        None => (None, None),
    };
    Some(TestResult {
        name: string_from_chars(name.as_slice()),
        passed,
        mem: m,
        cpu: c,
        message: None,
    })
}

/// Best-effort extraction of test results from `aiken check` output: one
/// result per `PASS <name>` or `FAIL <name>` line, in order, with the
/// memory and CPU figures where the line reports them.
pub fn parse_test(stdout: &str) -> (out: Vec<TestResult>)
    ensures
        test_views(out@) == tests_of(lines(stdout@)),
        no_message(out@),
{
    let pass = str_chars("PASS ");
    let fail = str_chars("FAIL ");
    let mem = str_chars("mem:");
    let cpu = str_chars("cpu:");
    proof {
        reveal_strlit("PASS ");
        reveal_strlit("FAIL ");
        reveal_strlit("mem:");
        reveal_strlit("cpu:");
        assert(pass@ =~= pass_tag());
        assert(fail@ =~= fail_tag());
        assert(mem@ =~= mem_key());
        assert(cpu@ =~= cpu_key());
    }
    let ls = str_lines(stdout);
    let ghost ll = char_lines(ls@);
    let mut out: Vec<TestResult> = Vec::new();
    for i in 0..ls.len()
        invariant
            ll == char_lines(ls@),
            ll == lines(stdout@),
            pass@ == pass_tag(),
            fail@ == fail_tag(),
            mem@ == mem_key(),
            cpu@ == cpu_key(),
            test_views(out@) == tests_of(ll.take(i as int)),
            no_message(out@),
    {
        assert(ll.take(i + 1).drop_last() =~= ll.take(i as int));
        assert(ll.take(i + 1).last() == ls@[i as int]@);
        let ghost before = out@;
        match try_parse_test_line(&ls[i], &pass, &fail, &mem, &cpu) {
            Some(t) => {
                out.push(t);
                assert(test_views(out@) =~= test_views(before).push((t.name@, t.passed, t.mem, t.cpu)));
            },
            None => {},
        }
        assert(test_views(out@) =~= tests_of(ll.take(i + 1)));
    }
    assert(ll.take(ls.len() as int) =~= ll);
    out
}

/// The artifact lines of a sequence of lines: those naming `plutus.json`,
/// trimmed, in order.
pub open spec fn artifacts_of(ls: Seq<Seq<char>>) -> Seq<Seq<char>>
    decreases ls.len(),
{
    if ls.len() == 0 {
        Seq::empty()
    } else {
        artifacts_of(ls.drop_last()) + if contains(ls.last(), plutus_json()) {
            seq![trim(ls.last())]
        } else {
            Seq::empty()
        }
    }
}

/// The characters of each string.
pub open spec fn string_views(v: Seq<String>) -> Seq<Seq<char>> {
    v.map_values(|s: String| s@)
}

/// Best-effort artifact path extraction from `aiken build` output: every
/// line that names `plutus.json`, trimmed.
pub fn parse_artifacts(stdout: &str) -> (out: Vec<String>)
    ensures
        string_views(out@) == artifacts_of(lines(stdout@)),
{
    let marker = str_chars("plutus.json");
    proof {
        reveal_strlit("plutus.json");
        assert(marker@ =~= plutus_json());
    }
    let ls = str_lines(stdout);
    let ghost ll = char_lines(ls@);
    let mut out: Vec<String> = Vec::new();
    for i in 0..ls.len()
        invariant
            ll == char_lines(ls@),
            marker@ == plutus_json(),
            string_views(out@) == artifacts_of(ll.take(i as int)),
    {
        assert(ll.take(i + 1).drop_last() =~= ll.take(i as int));
        assert(ll.take(i + 1).last() == ls@[i as int]@);
        let ghost before = out@;
        if contains_chars(&ls[i], &marker) {
            let (a, b) = trim_bounds(&ls[i]);
            let s = string_from_chars(slice_of(&ls[i], a, b).as_slice());
            out.push(s);
            assert(string_views(out@) =~= string_views(before).push(s@));
        }
        assert(string_views(out@) =~= artifacts_of(ll.take(i + 1)));
    }
    assert(ll.take(ls.len() as int) =~= ll);
    out
}

} // verus!

//! LSP wire framing: JSON-RPC bodies framed by a `Content-Length` header.
//!
//! A message is a block of header lines, each ended by `\n` (with optional
//! `\r`), then an empty line, then exactly as many body bytes as the
//! `Content-Length` header gave.

use vstd::prelude::*;
use vstd::utf8::{decode_utf8, encode_utf8, valid_utf8};
use crate::error::CoreError;
use crate::text::{
    decimal, decimal_string, has_prefix, parse_unsigned, parse_unsigned_chars, slice_of, str_chars,
    strip_prefix_chars, trim, trim_bounds,
};

verus! {

/// `std::str::from_utf8`: the text that `bytes` encode, exactly when they are
/// valid UTF-8.
#[verifier::external_body]
fn utf8_text(bytes: &[u8]) -> (r: Option<String>)
    ensures
        r is Some <==> valid_utf8(bytes@),
        r matches Some(s) ==> encode_utf8(s@) == bytes@,
{
    std::str::from_utf8(bytes).ok().map(|s| s.to_owned())
}

/// The header name that carries the body's length.
pub open spec fn length_tag() -> Seq<char> {
    "Content-Length:"@
}

/// `s` without its trailing `'\r'` and `'\n'` characters.
pub open spec fn crlf_trimmed(s: Seq<char>) -> Seq<char>
    decreases s.len(),
{
    if s.len() > 0 && (s.last() == '\r' || s.last() == '\n') {
        crlf_trimmed(s.drop_last())
    } else {
        s
    }
}

/// What reading one header line does.
#[derive(Debug, Clone, Copy, PartialEq, Eq, Structural)]
pub enum HeaderStep {
    /// The empty line that ends the header block.
    End,
    /// A header line; the `Content-Length` read so far becomes this.
    Continue(Option<usize>),
    /// The line is not valid UTF-8.
    InvalidUtf8,
}

/// The effect of one header line on the `Content-Length` read so far: a
/// `Content-Length:` line sets it to its trimmed value parsed as a `usize`
/// (none when that fails); any other non-empty line leaves it.
pub open spec fn header_step(line: Seq<u8>, length: Option<usize>) -> HeaderStep {
    if !valid_utf8(line) {
        HeaderStep::InvalidUtf8
    } else {
        let t = crlf_trimmed(decode_utf8(line));
        if t.len() == 0 {
            HeaderStep::End
        } else if has_prefix(t, length_tag()) {
            HeaderStep::Continue(
                match parse_unsigned(trim(t.skip(length_tag().len() as int)), usize::MAX as nat) {
                    Some(n) => Some(n as usize),
                    None => None,
                },
            )
        } else {
            HeaderStep::Continue(length)
        }
    }
}

/// Reads one header line (with its line ending).
pub fn read_header_line(line: &[u8], length: Option<usize>) -> (r: HeaderStep)
    ensures
        r == header_step(line@, length),
{
    let text = match utf8_text(line) {
        Some(t) => t,
        None => {
            return HeaderStep::InvalidUtf8;
        },
    };
    proof {
        vstd::utf8::encode_utf8_decode_utf8(text@);
    }
    let chars = str_chars(text.as_str());
    let mut end = chars.len();
    assert(chars@.take(chars.len() as int) =~= chars@);
    while end > 0 && (chars[end - 1] == '\r' || chars[end - 1] == '\n')
        invariant
            end <= chars.len(),
            crlf_trimmed(chars@) == crlf_trimmed(chars@.take(end as int)),
        decreases end,
    {
        assert(chars@.take(end as int).drop_last() =~= chars@.take(end - 1));
        end = end - 1;
    }
    assert(chars@.take(chars.len() as int) =~= chars@);
    let t = slice_of(&chars, 0, end);
    assert(t@ =~= chars@.take(end as int));
    assert(crlf_trimmed(t@) == t@);
    if t.len() == 0 {
        return HeaderStep::End;
    }
    let tag = str_chars("Content-Length:");
    match strip_prefix_chars(&t, &tag) {
        Some(rest) => {
            let (a, b) = trim_bounds(&rest);
            let digits = slice_of(&rest, a, b);
            let max: u64 = usize::MAX as u64;
            match parse_unsigned_chars(&digits, max) {
                Some(n) => HeaderStep::Continue(Some(n as usize)),
                None => HeaderStep::Continue(None),
            }
        },
        None => HeaderStep::Continue(length),
    }
}

/// The body length a finished header block gives, or the error for a block
/// without a usable `Content-Length`.
pub fn body_length(length: Option<usize>) -> (r: Result<usize, CoreError>)
    ensures
        match length {
            Some(n) => r == Ok::<usize, CoreError>(n),
            None => r matches Err(CoreError::Other(m)) && m@ == "missing Content-Length header"@,
        },
{
    match length {
        Some(n) => Ok(n),
        None => Err(CoreError::other(String::from_str("missing Content-Length header"))),
    }
}

// ---------------------------------------------------------------------------
// Whole messages
// ---------------------------------------------------------------------------

/// Index of the first byte `b` in `s`, or `s.len()`.
pub open spec fn byte_index(s: Seq<u8>, b: u8) -> nat
    decreases s.len(),
{
    if s.len() == 0 {
        0
    } else if s[0] == b {
        0
    } else {
        1 + byte_index(s.drop_first(), b)
    }
}

proof fn lemma_byte_index(s: Seq<u8>, b: u8, m: int)
    requires
        0 <= m <= s.len(),
        forall|k: int| 0 <= k < m ==> #[trigger] s[k] != b,
        m < s.len() ==> s[m] == b,
    ensures
        byte_index(s, b) == m,
    decreases m,
{
    if m > 0 {
        lemma_byte_index(s.drop_first(), b, m - 1);
    }
}

/// The length of the first line of `s`, its `\n` included (all of `s` when
/// there is no `\n`).
pub open spec fn first_line_len(s: Seq<u8>) -> nat {
    if byte_index(s, 10) < s.len() {
        byte_index(s, 10) + 1
    } else {
        s.len()
    }
}

/// How a header block ends.
pub enum HeaderEnd {
    /// The input ended before the block did.
    Closed,
    /// A header line was not valid UTF-8.
    Invalid,
    /// The block ended with this `Content-Length`; the input after it.
    Done(Option<usize>, Seq<u8>),
}

/// Reads header lines from `s` with `length` read so far.
pub open spec fn read_headers(s: Seq<u8>, length: Option<usize>) -> HeaderEnd
    decreases s.len(),
{
    if s.len() == 0 {
        HeaderEnd::Closed
    } else {
        let n = first_line_len(s) as int;
        if n == 0 {
            HeaderEnd::Closed
        } else {
            match header_step(s.take(n), length) {
                HeaderStep::InvalidUtf8 => HeaderEnd::Invalid,
                HeaderStep::End => HeaderEnd::Done(length, s.skip(n)),
                HeaderStep::Continue(l) => read_headers(s.skip(n), l),
            }
        }
    }
}

/// What reading one message from a byte stream gives.
#[derive(Debug)]
pub enum FrameRead {
    /// The stream ended before a header block.
    Closed,
    /// A header line was not valid UTF-8.
    InvalidHeader,
    /// The header block had no usable `Content-Length`.
    MissingLength,
    /// The stream ended inside the body.
    Truncated,
    /// A body, and how many bytes of the stream the message took.
    Message(Vec<u8>, usize),
}

/// What reading one message from the start of `s` gives, as plain values:
/// `(kind, body, consumed)` with kind 0 closed, 1 invalid header, 2 missing
/// length, 3 truncated, 4 message.
pub open spec fn read_frame_spec(s: Seq<u8>) -> (u8, Seq<u8>, nat) {
    match read_headers(s, None) {
        HeaderEnd::Closed => (0, Seq::empty(), 0),
        HeaderEnd::Invalid => (1, Seq::empty(), 0),
        HeaderEnd::Done(None, _) => (2, Seq::empty(), 0),
        HeaderEnd::Done(Some(n), rest) => if rest.len() >= n {
            (4, rest.take(n as int), (s.len() - rest.len() + n) as nat)
        } else {
            (3, Seq::empty(), 0)
        },
    }
}

/// The plain values of a `FrameRead`, in the shape of `read_frame_spec`.
pub open spec fn frame_read_view(r: FrameRead) -> (u8, Seq<u8>, nat) {
    match r {
        FrameRead::Closed => (0, Seq::empty(), 0),
        FrameRead::InvalidHeader => (1, Seq::empty(), 0),
        FrameRead::MissingLength => (2, Seq::empty(), 0),
        FrameRead::Truncated => (3, Seq::empty(), 0),
        FrameRead::Message(body, used) => (4, body@, used as nat),
    }
}

/// Copies `s[a..b]`.
fn byte_slice(s: &[u8], a: usize, b: usize) -> (r: Vec<u8>)
    requires
        a <= b <= s.len(),
    ensures
        r@ == s@.subrange(a as int, b as int),
{
    let mut r: Vec<u8> = Vec::new();
    let mut i = a;
    while i < b
        invariant
            a <= i <= b <= s.len(),
            r@ == s@.subrange(a as int, i as int),
        decreases b - i,
    {
        r.push(s[i]);
        i = i + 1;
        assert(r@ =~= s@.subrange(a as int, i as int));
    }
    r
}

/// Reads one message from the start of `input`, as the reader task does
/// from the language server's stdout.
pub fn read_frame(input: &[u8]) -> (r: FrameRead)
    ensures
        frame_read_view(r) == read_frame_spec(input@),
{
    let mut pos: usize = 0;
    let mut length: Option<usize> = None;
    assert(input@.skip(0) =~= input@);
    loop
        invariant
            pos <= input.len(),
            read_headers(input@, None) == read_headers(input@.skip(pos as int), length),
        decreases input.len() - pos,
    {
        let ghost s = input@.skip(pos as int);
        if pos == input.len() {
            return FrameRead::Closed;
        }
        let mut k = pos;
        while k < input.len() && input[k] != 10
            invariant
                pos <= k <= input.len(),
                forall|m: int| pos <= m < k ==> #[trigger] input@[m] != 10,
            decreases input.len() - k,
        {
            k = k + 1;
        }
        proof {
            assert forall|m: int| 0 <= m < k - pos implies #[trigger] s[m] != 10 by {
                assert(s[m] == input@[pos + m]);
            }
            lemma_byte_index(s, 10, k - pos);
        }
        let end = if k < input.len() { k + 1 } else { k };
        assert(first_line_len(s) == end - pos);
        let line = byte_slice(input, pos, end);
        assert(line@ =~= s.take(end - pos));
        assert(s.skip(end - pos) =~= input@.skip(end as int));
        match read_header_line(line.as_slice(), length) {
            HeaderStep::InvalidUtf8 => {
                return FrameRead::InvalidHeader;
            },
            HeaderStep::End => {
                let ghost rest = input@.skip(end as int);
                match length {
                    None => {
                        return FrameRead::MissingLength;
                    },
                    Some(n) => {
                        if input.len() - end >= n {
                            let body = byte_slice(input, end, end + n);
                            assert(body@ =~= rest.take(n as int));
                            return FrameRead::Message(body, end + n);
                        } else {
                            return FrameRead::Truncated;
                        }
                    },
                }
            },
            HeaderStep::Continue(l) => {
                length = l;
                pos = end;
            },
        }
    }
}

/// The header block framing a body of `n` bytes:
/// `Content-Length: <n>\r\n\r\n`.
pub open spec fn frame_header(n: nat) -> Seq<char> {
    "Content-Length: "@ + decimal(n) + seq!['\r', '\n'] + seq!['\r', '\n']
}

/// A framed message: the header block, UTF-8 encoded, then the body.
pub open spec fn frame(body: Seq<u8>) -> Seq<u8> {
    encode_utf8(frame_header(body.len())) + body
}

/// Frames a JSON-RPC body for the language server's stdin.
pub fn frame_message(body: &[u8]) -> (r: Vec<u8>)
    ensures
        r@ == frame(body@),
{
    let mut header = String::from_str("Content-Length: ");
    let len = decimal_string(body.len() as u64);
    header.append(len.as_str());
    header.append("\r\n\r\n");
    proof {
        reveal_strlit("\r\n\r\n");
        assert(header@ =~= frame_header(body@.len()));
    }
    let bytes = header.as_str().as_bytes();
    let mut out: Vec<u8> = Vec::new();
    for i in 0..bytes.len()
        invariant
            out@ == bytes@.take(i as int),
    {
        out.push(bytes[i]);
        assert(out@ =~= bytes@.take(i + 1));
    }
    assert(bytes@.take(bytes.len() as int) =~= bytes@);
    let ghost head = out@;
    for i in 0..body.len()
        invariant
            out@ == head + body@.take(i as int),
    {
        out.push(body[i]);
        assert(out@ =~= head + body@.take(i + 1));
    }
    assert(body@.take(body.len() as int) =~= body@);
    out
}

proof fn lemma_ascii_line(chars: Seq<char>, s: Seq<u8>, at: int)
    requires
        vstd::utf8::is_ascii_chars(chars),
        0 <= at,
        at + chars.len() <= s.len(),
        forall|k: int| 0 <= k < chars.len() ==> #[trigger] s[at + k] == chars[k] as u8,
    ensures
        s.subrange(at, at + chars.len()) == encode_utf8(chars),
        valid_utf8(s.subrange(at, at + chars.len())),
        decode_utf8(s.subrange(at, at + chars.len())) == chars,
{
    vstd::utf8::is_ascii_chars_encode_utf8(chars);
    assert forall|k: int| 0 <= k < chars.len() implies #[trigger] s.subrange(
        at,
        at + chars.len(),
    )[k] == encode_utf8(chars)[k] by {
        assert(s.subrange(at, at + chars.len())[k] == s[at + k]);
        assert(chars[k] as u8 == encode_utf8(chars)[k]);
    }
    assert(s.subrange(at, at + chars.len()) =~= encode_utf8(chars));
    vstd::utf8::encode_utf8_valid_utf8(chars);
    vstd::utf8::encode_utf8_decode_utf8(chars);
}

/// Reading a framed message back gives exactly its body, and says that the
/// message took exactly the framed bytes, whatever follows it on the stream.
pub proof fn law_frame_round_trip(body: Seq<u8>, more: Seq<u8>)
    requires
        body.len() <= usize::MAX,
    ensures
        read_frame_spec(frame(body) + more) == (4u8, body, frame(body).len()),
{
    let n = body.len();
    let d = decimal(n);
    crate::text::lemma_decimal(n);
    reveal_strlit("Content-Length: ");
    reveal_strlit("Content-Length:");
    let tag = "Content-Length: "@;
    let h1 = tag + d + seq!['\r', '\n'];
    let h2 = seq!['\r', '\n'];
    let header = frame_header(n);
    assert(header =~= h1 + h2);
    let s = frame(body) + more;
    let hb = encode_utf8(header);
    assert(vstd::utf8::is_ascii_chars(header)) by {
        assert forall|i: int| 0 <= i < header.len() implies '\0' <= #[trigger] header[i] <= '\u{7f}' by {
            if tag.len() <= i < tag.len() + d.len() {
                assert(header[i] == d[i - tag.len()]);
                assert(crate::text::is_digit(d[i - tag.len()]));
            }
        }
    }
    vstd::utf8::is_ascii_chars_encode_utf8(header);
    assert(s.len() == header.len() + n + more.len());
    assert forall|k: int| 0 <= k < header.len() implies #[trigger] s[k] == header[k] as u8 by {
        assert(s[k] == hb[k]);
    }
    // The first header line.
    let l1 = h1.len() as int;
    assert(vstd::utf8::is_ascii_chars(h1)) by {
        assert forall|i: int| 0 <= i < h1.len() implies '\0' <= #[trigger] h1[i] <= '\u{7f}' by {
            assert(h1[i] == header[i]);
        }
    }
    assert forall|k: int| 0 <= k < h1.len() implies #[trigger] s[0 + k] == h1[k] as u8 by {
        assert(h1[k] == header[k]);
    }
    lemma_ascii_line(h1, s, 0);
    assert forall|k: int| 0 <= k < l1 - 1 implies #[trigger] s[k] != 10 by {
        assert(s[k] == h1[k] as u8);
        if k < tag.len() {
        } else if k < tag.len() + d.len() {
            assert(h1[k] == d[k - tag.len()]);
            assert(crate::text::is_digit(d[k - tag.len()]));
        } else {
            assert(h1[k] == '\r');
        }
    }
    assert(s[l1 - 1] == 10) by {
        assert(h1[l1 - 1] == '\n');
    }
    lemma_byte_index(s, 10, l1 - 1);
    assert(first_line_len(s) == l1);
    assert(s.take(l1) =~= s.subrange(0, l1));
    // Its text, trimmed of the line ending, is the length header.
    let t = tag + d;
    assert(h1.drop_last() =~= t.push('\r'));
    assert(t.push('\r').drop_last() =~= t);
    assert(crlf_trimmed(h1) == crlf_trimmed(h1.drop_last()));
    assert(crlf_trimmed(t.push('\r')) == crlf_trimmed(t));
    assert(t.last() == d.last());
    assert(crate::text::is_digit(d.last()));
    assert(crlf_trimmed(t) == t);
    assert(t.take(15) =~= length_tag());
    let rest = t.skip(15);
    assert(rest =~= seq![' '] + d);
    assert(rest.drop_first() =~= d);
    assert(crate::text::is_digit(d[0]));
    assert(!crate::text::is_ws(d[0]));
    assert(crate::text::trim_start(d) == d);
    assert(crate::text::is_ws(rest[0]));
    assert(crate::text::trim_start(rest) == d);
    assert(crate::text::trim_end(d) == d);
    crate::text::law_decimal_round_trip(n, usize::MAX as nat);
    assert(header_step(s.take(l1), None) == HeaderStep::Continue(Some(n as usize)));
    // The empty line.
    let s2 = s.skip(l1);
    assert forall|k: int| 0 <= k < h2.len() implies #[trigger] s2[0 + k] == h2[k] as u8 by {
        assert(s2[k] == s[l1 + k]);
        assert(header[l1 + k] == h2[k]);
    }
    assert(vstd::utf8::is_ascii_chars(h2));
    lemma_ascii_line(h2, s2, 0);
    assert(s2[0] != 10);
    assert(s2[1] == 10);
    lemma_byte_index(s2, 10, 1);
    assert(s2.take(2) =~= s2.subrange(0, 2));
    assert(h2.drop_last() =~= seq!['\r']);
    assert(seq!['\r'].drop_last() =~= Seq::<char>::empty());
    assert(crlf_trimmed(Seq::<char>::empty()) == Seq::<char>::empty());
    assert(crlf_trimmed(seq!['\r']) == crlf_trimmed(Seq::<char>::empty()));
    assert(crlf_trimmed(h2) == crlf_trimmed(seq!['\r']));
    assert(crlf_trimmed(h2) =~= Seq::<char>::empty());
    assert(header_step(s2.take(2), Some(n as usize)) == HeaderStep::End);
    let s3 = s2.skip(2);
    assert(s3 =~= body + more) by {
        assert(frame(body) =~= hb + body);
        assert(hb.len() == l1 + 2);
    }
    assert(read_headers(s2, Some(n as usize)) == HeaderEnd::Done(Some(n as usize), s3));
    assert(read_headers(s, None) == read_headers(s2, Some(n as usize)));
    assert(s3.take(n as int) =~= body);
}

/// A header line other than `Content-Length`: it ends in its only `\n`, is
/// valid UTF-8, and its text without the line ending is neither empty nor a
/// `Content-Length:` header.
pub open spec fn other_header_line(line: Seq<u8>) -> bool {
    &&& line.len() > 0
    &&& line.last() == 10
    &&& forall|k: int| 0 <= k < line.len() - 1 ==> #[trigger] line[k] != 10
    &&& valid_utf8(line)
    &&& crlf_trimmed(decode_utf8(line)).len() > 0
    &&& !has_prefix(crlf_trimmed(decode_utf8(line)), length_tag())
}

/// Header lines one after the other.
pub open spec fn header_lines(ls: Seq<Seq<u8>>) -> Seq<u8>
    decreases ls.len(),
{
    if ls.len() == 0 {
        Seq::empty()
    } else {
        ls[0] + header_lines(ls.drop_first())
    }
}

/// The empty line that ends a header block: `\r\n`.
pub open spec fn blank_line() -> Seq<u8> {
    seq![13u8, 10u8]
}

proof fn lemma_other_lines_skipped(ls: Seq<Seq<u8>>, tail: Seq<u8>)
    requires
        forall|i: int| 0 <= i < ls.len() ==> other_header_line(#[trigger] ls[i]),
    ensures
        read_headers(header_lines(ls) + tail, None) == read_headers(tail, None),
    decreases ls.len(),
{
    if ls.len() > 0 {
        let line = ls[0];
        assert(other_header_line(line));
        let t = header_lines(ls.drop_first()) + tail;
        let s = header_lines(ls) + tail;
        assert(s =~= line + t);
        let m = line.len() - 1;
        assert forall|k: int| 0 <= k < m implies #[trigger] s[k] != 10 by {
            assert(s[k] == line[k]);
        }
        assert(s[m] == line[m]);
        lemma_byte_index(s, 10, m);
        assert(first_line_len(s) == line.len());
        assert(s.take(line.len() as int) =~= line);
        assert(s.skip(line.len() as int) =~= t);
        assert(header_step(line, None) == HeaderStep::Continue(None));
        assert forall|i: int| 0 <= i < ls.drop_first().len() implies other_header_line(
            #[trigger] ls.drop_first()[i],
        ) by {
            assert(ls.drop_first()[i] == ls[i + 1]);
        }
        lemma_other_lines_skipped(ls.drop_first(), tail);
    } else {
        assert(header_lines(ls) + tail =~= tail);
    }
}

/// A header block that ends in its empty line without a `Content-Length`
/// header is read as a missing length, whatever follows it on the stream.
pub proof fn law_missing_length(ls: Seq<Seq<u8>>, more: Seq<u8>)
    requires
        forall|i: int| 0 <= i < ls.len() ==> other_header_line(#[trigger] ls[i]),
    ensures
        read_frame_spec(header_lines(ls) + blank_line() + more) == (2u8, Seq::<u8>::empty(), 0nat),
{
    let tail = blank_line() + more;
    assert(header_lines(ls) + blank_line() + more =~= header_lines(ls) + tail);
    lemma_other_lines_skipped(ls, tail);
    let h2 = seq!['\r', '\n'];
    assert forall|k: int| 0 <= k < h2.len() implies #[trigger] tail[0 + k] == h2[k] as u8 by {
        assert(tail[k] == blank_line()[k]);
    }
    assert(vstd::utf8::is_ascii_chars(h2));
    lemma_ascii_line(h2, tail, 0);
    assert(tail[0] != 10);
    assert(tail[1] == 10);
    lemma_byte_index(tail, 10, 1);
    assert(tail.take(2) =~= tail.subrange(0, 2));
    assert(h2.drop_last() =~= seq!['\r']);
    assert(seq!['\r'].drop_last() =~= Seq::<char>::empty());
    assert(crlf_trimmed(Seq::<char>::empty()) == Seq::<char>::empty());
    assert(crlf_trimmed(seq!['\r']) == crlf_trimmed(Seq::<char>::empty()));
    assert(crlf_trimmed(h2) == crlf_trimmed(seq!['\r']));
    assert(crlf_trimmed(h2) =~= Seq::<char>::empty());
    assert(header_step(tail.take(2), None) == HeaderStep::End);
    assert(tail.skip(2) =~= more);
    assert(read_headers(tail, None) == HeaderEnd::Done(None, more));
}

} // verus!

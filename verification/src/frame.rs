//! The wire-level unit of the protocol: a command line, header lines, a
//! blank line, an optional body and a terminating zero byte.
//!
//! ```text
//! COMMAND\n
//! name:value\n
//! \n
//! body\0
//! ```

use vstd::prelude::*;
use vstd::slice::slice_subrange;
use bytes::BytesMut;
use crate::buffer::{buffer_extend, buffer_len, buffered};
use crate::escape::{escape, push_escaped, unescape, unescape_bytes};
use crate::text::{
    bytes_eq, copy_bytes, decimal_of, find_byte, lemma_first_index, parse_decimal, push_bytes,
    COLON, LF, NUL,
};

verus! {

/// A header as it is held in memory: name and value, unescaped.
pub type Header = (Vec<u8>, Vec<u8>);

/// A header as a pair of byte sequences.
pub type HeaderView = (Seq<u8>, Seq<u8>);

/// One protocol unit.
#[derive(Debug, Clone, PartialEq, Eq)]
pub struct Frame {
    /// The command, without its line feed.
    pub command: Vec<u8>,
    /// The headers in wire order. A name may occur more than once; the first
    /// occurrence counts.
    pub headers: Vec<Header>,
    /// The payload, for the commands that carry one.
    pub body: Option<Vec<u8>>,
}

/// The mathematical content of a [`Frame`].
pub struct FrameView {
    pub command: Seq<u8>,
    pub headers: Seq<HeaderView>,
    pub body: Option<Seq<u8>>,
}

/// The headers of a vector as pairs of byte sequences.
pub open spec fn headers_view(hs: Seq<Header>) -> Seq<HeaderView> {
    Seq::new(hs.len(), |i: int| (hs[i].0@, hs[i].1@))
}

/// The bytes of an optional byte string.
pub open spec fn bytes_view(bytes: Option<Vec<u8>>) -> Option<Seq<u8>> {
    match bytes {
        Some(b) => Some(b@),
        None => None,
    }
}

impl View for Frame {
    type V = FrameView;

    open spec fn view(&self) -> FrameView {
        FrameView {
            command: self.command@,
            headers: headers_view(self.headers@),
            body: bytes_view(self.body),
        }
    }
}

/// The header name `content-length`.
pub open spec fn content_length_name() -> Seq<u8> {
    seq![
        'c' as u8, 'o' as u8, 'n' as u8, 't' as u8, 'e' as u8, 'n' as u8, 't' as u8, '-' as u8,
        'l' as u8, 'e' as u8, 'n' as u8, 'g' as u8, 't' as u8, 'h' as u8,
    ]
}

/// The value of the first header called `name`.
pub open spec fn lookup(hs: Seq<HeaderView>, name: Seq<u8>) -> Option<Seq<u8>>
    decreases hs.len(),
{
    if hs.len() == 0 {
        None
    } else if hs[0].0 == name {
        Some(hs[0].1)
    } else {
        lookup(hs.skip(1), name)
    }
}

// ---------------------------------------------------------------------------
// Wire format: writing
// ---------------------------------------------------------------------------

/// One header line, without its line feed.
pub open spec fn header_line(h: HeaderView) -> Seq<u8> {
    escape(h.0) + seq![COLON] + escape(h.1)
}

/// All header lines, each with its line feed.
pub open spec fn header_lines(hs: Seq<HeaderView>) -> Seq<u8>
    decreases hs.len(),
{
    if hs.len() == 0 {
        Seq::empty()
    } else {
        header_line(hs[0]) + seq![LF] + header_lines(hs.skip(1))
    }
}

/// The bytes of the body; none when there is no body.
pub open spec fn body_bytes(body: Option<Seq<u8>>) -> Seq<u8> {
    match body {
        Some(b) => b,
        None => Seq::empty(),
    }
}

/// The exact bytes that stand for a frame on the wire.
pub open spec fn wire(f: FrameView) -> Seq<u8> {
    f.command + seq![LF] + header_lines(f.headers) + seq![LF] + body_bytes(f.body) + seq![NUL]
}

// ---------------------------------------------------------------------------
// Wire format: reading
// ---------------------------------------------------------------------------

/// The outcome of reading one part of a frame from the front of some bytes.
pub enum Scan<T> {
    /// The bytes end before the part does.
    Incomplete,
    /// The bytes cannot be the start of this part.
    Malformed,
    /// The part, as read.
    Done(T),
}

/// The outcome of reading one frame from the front of some bytes.
pub enum ParseResult {
    /// More bytes are needed.
    Incomplete,
    /// The bytes cannot be the start of any frame.
    Malformed,
    /// A frame, and the number of bytes that it and the line feeds around it
    /// take up.
    Complete { frame: FrameView, consumed: int },
}

/// The number of line feeds that `s` starts with.
pub open spec fn leading_lf(s: Seq<u8>) -> int
    decreases s.len(),
{
    if s.len() > 0 && s[0] == LF {
        1 + leading_lf(s.skip(1))
    } else {
        0
    }
}

/// Upper-case ASCII letter.
pub open spec fn is_upper(b: u8) -> bool {
    65 <= b <= 90
}

/// A command is a non-empty word of upper-case ASCII letters.
pub open spec fn is_command(s: Seq<u8>) -> bool {
    &&& s.len() > 0
    &&& forall|i: int| 0 <= i < s.len() ==> is_upper(#[trigger] s[i])
}

/// A header line, without its line feed, read as name and value: the name
/// ends at the first colon, and both parts are unescaped.
pub open spec fn parse_header_line(line: Seq<u8>) -> Option<HeaderView> {
    match line.index_of_first(COLON) {
        None => None,
        Some(c) => match (unescape(line.take(c)), unescape(line.skip(c + 1))) {
            (Some(name), Some(value)) => Some((name, value)),
            _ => None,
        },
    }
}

/// The header lines at the front of `s` up to and including the blank line
/// that ends them, with the number of bytes they take up.
pub open spec fn parse_headers(s: Seq<u8>) -> Scan<(Seq<HeaderView>, int)>
    decreases s.len(),
{
    match s.index_of_first(LF) {
        None => Scan::Incomplete,
        Some(e) => {
            if e == 0 {
                Scan::Done((Seq::empty(), 1))
            } else {
                match parse_header_line(s.take(e)) {
                    None => Scan::Malformed,
                    Some(h) => {
                        proof {
                            lemma_first_index(s, LF);
                        }
                        match parse_headers(s.skip(e + 1)) {
                            Scan::Done((hs, len)) => Scan::Done((seq![h] + hs, e + 1 + len)),
                            Scan::Incomplete => Scan::Incomplete,
                            Scan::Malformed => Scan::Malformed,
                        }
                    },
                }
            }
        },
    }
}

/// The body at the front of `s` with its terminator, and the number of bytes
/// they take up. A `content-length` header gives the body's length;
/// without one the body ends before the first zero byte, and an empty
/// body is no body.
pub open spec fn parse_body(s: Seq<u8>, headers: Seq<HeaderView>) -> Scan<(Option<Seq<u8>>, int)> {
    match lookup(headers, content_length_name()) {
        Some(v) => match decimal_of(v, usize::MAX as nat) {
            None => Scan::Malformed,
            Some(n) => {
                if s.len() <= n {
                    Scan::Incomplete
                } else if s[n as int] != NUL {
                    Scan::Malformed
                } else {
                    Scan::Done((Some(s.take(n as int)), n as int + 1))
                }
            },
        },
        None => match s.index_of_first(NUL) {
            None => Scan::Incomplete,
            Some(z) => Scan::Done((if z == 0 { None } else { Some(s.take(z)) }, z + 1)),
        },
    }
}

/// One frame at the very front of `s`, up to and including its terminator.
pub open spec fn parse_frame_core(s: Seq<u8>) -> ParseResult {
    match s.index_of_first(LF) {
        None => ParseResult::Incomplete,
        Some(e) => {
            if !is_command(s.take(e)) {
                ParseResult::Malformed
            } else {
                match parse_headers(s.skip(e + 1)) {
                    Scan::Incomplete => ParseResult::Incomplete,
                    Scan::Malformed => ParseResult::Malformed,
                    Scan::Done((headers, hlen)) => match parse_body(s.skip(e + 1 + hlen), headers) {
                        Scan::Incomplete => ParseResult::Incomplete,
                        Scan::Malformed => ParseResult::Malformed,
                        Scan::Done((body, blen)) => ParseResult::Complete {
                            frame: FrameView { command: s.take(e), headers, body },
                            consumed: e + 1 + hlen + blen,
                        },
                    },
                }
            }
        },
    }
}

/// One frame from the front of `s`: line feeds before the command line are
/// skipped, and the line feeds that follow the terminator are taken along.
pub open spec fn parse_frame_spec(s: Seq<u8>) -> ParseResult {
    let lead = leading_lf(s);
    match parse_frame_core(s.skip(lead)) {
        ParseResult::Complete { frame, consumed } => {
            let end = lead + consumed;
            ParseResult::Complete { frame, consumed: end + leading_lf(s.skip(end)) }
        },
        other => other,
    }
}

/// Line feeds are counted within the sequence.
pub proof fn lemma_leading_lf_bounds(s: Seq<u8>)
    ensures
        0 <= leading_lf(s) <= s.len(),
        forall|i: int| 0 <= i < leading_lf(s) ==> s[i] == LF,
        leading_lf(s) < s.len() ==> s[leading_lf(s)] != LF,
    decreases s.len(),
{
    if s.len() > 0 && s[0] == LF {
        lemma_leading_lf_bounds(s.skip(1));
        assert forall|i: int| 0 <= i < leading_lf(s) implies s[i] == LF by {
            if i > 0 {
                assert(s[i] == s.skip(1)[i - 1]);
            }
        }
        if leading_lf(s) < s.len() {
            assert(s[leading_lf(s)] == s.skip(1)[leading_lf(s) - 1]);
        }
    }
}

/// Header lines are read within the sequence, and take at least the blank line.
pub proof fn lemma_parse_headers_bounds(s: Seq<u8>)
    ensures
        parse_headers(s) matches Scan::Done((hs, len)) ==> 1 <= len <= s.len(),
    decreases s.len(),
{
    lemma_first_index(s, LF);
    match s.index_of_first(LF) {
        None => {},
        Some(e) => {
            if e != 0 && parse_header_line(s.take(e)) is Some {
                lemma_parse_headers_bounds(s.skip(e + 1));
            }
        },
    }
}

/// A body is read within the sequence, and takes at least its terminator.
pub proof fn lemma_parse_body_bounds(s: Seq<u8>, headers: Seq<HeaderView>)
    ensures
        parse_body(s, headers) matches Scan::Done((body, len)) ==> 1 <= len <= s.len(),
{
    lemma_first_index(s, NUL);
}

/// A frame is read within the sequence and is never empty.
pub proof fn lemma_parse_frame_bounds(s: Seq<u8>)
    ensures
        parse_frame_spec(s) matches ParseResult::Complete { frame, consumed } ==> 1 <= consumed
            <= s.len(),
        parse_frame_core(s) matches ParseResult::Complete { frame, consumed } ==> 1 <= consumed
            <= s.len(),
{
    lemma_parse_frame_core_bounds(s);
    lemma_leading_lf_bounds(s);
    let lead = leading_lf(s);
    lemma_parse_frame_core_bounds(s.skip(lead));
    match parse_frame_core(s.skip(lead)) {
        ParseResult::Complete { frame, consumed } => {
            lemma_leading_lf_bounds(s.skip(lead + consumed));
        },
        _ => {},
    }
}

/// A frame at the very front takes at least a command letter, two line
/// feeds and the terminator.
proof fn lemma_parse_frame_core_bounds(s: Seq<u8>)
    ensures
        parse_frame_core(s) matches ParseResult::Complete { frame, consumed } ==> 4 <= consumed
            <= s.len(),
{
    lemma_first_index(s, LF);
    match s.index_of_first(LF) {
        None => {},
        Some(e) => {
            let after = s.skip(e + 1);
            lemma_parse_headers_bounds(after);
            match parse_headers(after) {
                Scan::Done((headers, hlen)) => {
                    lemma_parse_body_bounds(s.skip(e + 1 + hlen), headers);
                },
                _ => {},
            }
        },
    }
}

// ---------------------------------------------------------------------------
// Executable reader
// ---------------------------------------------------------------------------

/// The outcome of [`parse_frame`].
#[derive(Debug, Clone, PartialEq, Eq)]
pub enum ParseOutcome {
    /// More bytes are needed; nothing may be dropped from the buffer.
    Incomplete,
    /// The bytes cannot be the start of any frame.
    Malformed,
    /// A frame, and the number of bytes to drop from the front of the buffer.
    Complete { frame: Frame, consumed: usize },
}

impl View for ParseOutcome {
    type V = ParseResult;

    open spec fn view(&self) -> ParseResult {
        match self {
            ParseOutcome::Incomplete => ParseResult::Incomplete,
            ParseOutcome::Malformed => ParseResult::Malformed,
            ParseOutcome::Complete { frame, consumed } => ParseResult::Complete {
                frame: frame@,
                consumed: *consumed as int,
            },
        }
    }
}

/// What a header scan of the executable reader stands for.
pub open spec fn headers_scan_view(r: Scan<(Vec<Header>, usize)>) -> Scan<(Seq<HeaderView>, int)> {
    match r {
        Scan::Incomplete => Scan::Incomplete,
        Scan::Malformed => Scan::Malformed,
        Scan::Done((hs, len)) => Scan::Done((headers_view(hs@), len as int)),
    }
}

/// What a body scan of the executable reader stands for.
pub open spec fn body_scan_view(r: Scan<(Option<Vec<u8>>, usize)>) -> Scan<(Option<Seq<u8>>, int)> {
    match r {
        Scan::Incomplete => Scan::Incomplete,
        Scan::Malformed => Scan::Malformed,
        Scan::Done((body, len)) => Scan::Done((bytes_view(body), len as int)),
    }
}

/// `acc` in front of the headers of `scan`, which were read `offset` bytes
/// into the input.
pub open spec fn headers_after(acc: Seq<HeaderView>, offset: int, scan: Scan<(Seq<HeaderView>, int)>) -> Scan<
    (Seq<HeaderView>, int),
> {
    match scan {
        Scan::Done((hs, len)) => Scan::Done((acc + hs, offset + len)),
        Scan::Incomplete => Scan::Incomplete,
        Scan::Malformed => Scan::Malformed,
    }
}

/// The value of the first header called `name`.
pub fn lookup_header<'a>(headers: &'a Vec<Header>, name: &[u8]) -> (r: Option<&'a Vec<u8>>)
    ensures
        match r {
            Some(v) => lookup(headers_view(headers@), name@) == Some(v@),
            None => lookup(headers_view(headers@), name@) is None,
        },
{
    let ghost hs = headers_view(headers@);
    let mut i: usize = 0;
    assert(hs.skip(0) =~= hs);
    while i < headers.len()
        invariant
            0 <= i <= headers@.len(),
            hs == headers_view(headers@),
            lookup(hs, name@) == lookup(hs.skip(i as int), name@),
        decreases headers@.len() - i,
    {
        assert(hs.skip(i as int).skip(1) =~= hs.skip(i + 1));
        if bytes_eq(headers[i].0.as_slice(), name) {
            return Some(&headers[i].1);
        }
        i += 1;
    }
    None
}

/// Counts the line feeds that `s` starts with.
pub fn count_leading_lf(s: &[u8]) -> (n: usize)
    ensures
        n == leading_lf(s@),
        n <= s@.len(),
{
    let mut i: usize = 0;
    assert(s@.skip(0) =~= s@);
    while i < s.len() && s[i] == LF
        invariant
            0 <= i <= s@.len(),
            leading_lf(s@) == i + leading_lf(s@.skip(i as int)),
        decreases s@.len() - i,
    {
        assert(s@.skip(i as int).skip(1) =~= s@.skip(i + 1));
        i += 1;
    }
    i
}

/// Whether `s` is a non-empty word of upper-case ASCII letters.
pub fn check_command(s: &[u8]) -> (r: bool)
    ensures
        r == is_command(s@),
{
    if s.len() == 0 {
        return false;
    }
    let mut i: usize = 0;
    while i < s.len()
        invariant
            0 <= i <= s@.len(),
            forall|j: int| 0 <= j < i ==> is_upper(#[trigger] s@[j]),
        decreases s@.len() - i,
    {
        if s[i] < 65 || s[i] > 90 {
            assert(!is_upper(s@[i as int]));
            return false;
        }
        i += 1;
    }
    true
}

/// Reads one header line, given without its line feed.
pub fn read_header_line(line: &[u8]) -> (r: Option<Header>)
    ensures
        match r {
            Some(h) => parse_header_line(line@) == Some((h.0@, h.1@)),
            None => parse_header_line(line@) is None,
        },
{
    proof {
        lemma_first_index(line@, COLON);
    }
    match find_byte(line, COLON) {
        None => None,
        Some(c) => {
            let len: usize = line.len();
            let raw_name = slice_subrange(line, 0, c);
            let raw_value = slice_subrange(line, c + 1, len);
            assert(raw_name@ =~= line@.take(c as int));
            assert(raw_value@ =~= line@.skip(c + 1));
            match unescape_bytes(raw_name) {
                None => None,
                Some(name) => match unescape_bytes(raw_value) {
                    None => None,
                    Some(value) => Some((name, value)),
                },
            }
        },
    }
}

/// Reads the header lines at the front of `s`, up to and including the
/// blank line that ends them.
pub fn read_headers(s: &[u8]) -> (r: Scan<(Vec<Header>, usize)>)
    ensures
        headers_scan_view(r) == parse_headers(s@),
        r matches Scan::Done((hs, len)) ==> len <= s@.len(),
{
    let mut headers: Vec<Header> = Vec::new();
    let mut pos: usize = 0;
    proof {
        assert(s@.skip(0) =~= s@);
        match parse_headers(s@) {
            Scan::Done((hs, len)) => {
                assert(headers_view(headers@) + hs =~= hs);
            },
            _ => {},
        }
    }
    loop
        invariant
            0 <= pos <= s@.len(),
            parse_headers(s@) == headers_after(
                headers_view(headers@),
                pos as int,
                parse_headers(s@.skip(pos as int)),
            ),
        decreases s@.len() - pos,
    {
        let rest = slice_subrange(s, pos, s.len());
        assert(rest@ =~= s@.skip(pos as int));
        proof {
            lemma_first_index(rest@, LF);
        }
        match find_byte(rest, LF) {
            None => {
                return Scan::Incomplete;
            },
            Some(e) => {
                if e == 0 {
                    proof {
                        assert(headers_view(headers@) + Seq::<HeaderView>::empty() =~= headers_view(
                            headers@,
                        ));
                    }
                    return Scan::Done((headers, pos + 1));
                }
                let line = slice_subrange(rest, 0, e);
                assert(line@ =~= rest@.take(e as int));
                match read_header_line(line) {
                    None => {
                        return Scan::Malformed;
                    },
                    Some(h) => {
                        let ghost acc = headers_view(headers@);
                        let ghost hv = (h.0@, h.1@);
                        headers.push(h);
                        proof {
                            assert(headers_view(headers@) =~= acc.push(hv));
                            assert(rest@.skip(e + 1) =~= s@.skip(pos + e + 1));
                            match parse_headers(s@.skip(pos + e + 1)) {
                                Scan::Done((hs, len)) => {
                                    assert(acc + (seq![hv] + hs) =~= acc.push(hv) + hs);
                                },
                                _ => {},
                            }
                        }
                        pos = pos + e + 1;
                    },
                }
            },
        }
    }
}

/// Reads the body at the front of `s`, with its terminator.
pub fn read_body(s: &[u8], headers: &Vec<Header>) -> (r: Scan<(Option<Vec<u8>>, usize)>)
    ensures
        body_scan_view(r) == parse_body(s@, headers_view(headers@)),
        r matches Scan::Done((body, len)) ==> len <= s@.len(),
{
    let name = content_length();
    let available: usize = s.len();
    match lookup_header(headers, name.as_slice()) {
        Some(v) => match parse_decimal(v.as_slice(), usize::MAX as u64) {
            None => Scan::Malformed,
            Some(n) => {
                let n: usize = n as usize;
                if available <= n {
                    Scan::Incomplete
                } else if s[n] != NUL {
                    Scan::Malformed
                } else {
                    let body = copy_bytes(slice_subrange(s, 0, n));
                    assert(body@ =~= s@.take(n as int));
                    Scan::Done((Some(body), n + 1))
                }
            },
        },
        None => {
            proof {
                lemma_first_index(s@, NUL);
            }
            match find_byte(s, NUL) {
                None => Scan::Incomplete,
                Some(z) => {
                    if z == 0 {
                        Scan::Done((None, 1))
                    } else {
                        let body = copy_bytes(slice_subrange(s, 0, z));
                        assert(body@ =~= s@.take(z as int));
                        Scan::Done((Some(body), z + 1))
                    }
                },
            }
        },
    }
}

/// The header name `content-length`.
pub fn content_length() -> (v: Vec<u8>)
    ensures
        v@ == content_length_name(),
{
    let v: Vec<u8> = vec![
        'c' as u8, 'o' as u8, 'n' as u8, 't' as u8, 'e' as u8, 'n' as u8, 't' as u8, '-' as u8,
        'l' as u8, 'e' as u8, 'n' as u8, 'g' as u8, 't' as u8, 'h' as u8,
    ];
    assert(v@ =~= content_length_name());
    v
}

/// Tries to read one frame from the front of `input`.
///
/// Every boundary at which the input may have been cut short (inside the
/// command line, a header line, the body, or before the terminator) gives
/// `Incomplete`; a decision is made only on bytes that are present.
pub fn parse_frame(input: &[u8]) -> (r: ParseOutcome)
    ensures
        r@ == parse_frame_spec(input@),
        r matches ParseOutcome::Complete { frame, consumed } ==> 1 <= consumed <= input@.len(),
{
    let lead = count_leading_lf(input);
    let s = slice_subrange(input, lead, input.len());
    assert(s@ =~= input@.skip(lead as int));
    proof {
        lemma_first_index(s@, LF);
    }
    match find_byte(s, LF) {
        None => ParseOutcome::Incomplete,
        Some(e) => {
            let command = slice_subrange(s, 0, e);
            assert(command@ =~= s@.take(e as int));
            if !check_command(command) {
                return ParseOutcome::Malformed;
            }
            let after_command = slice_subrange(s, e + 1, s.len());
            assert(after_command@ =~= s@.skip(e + 1));
            match read_headers(after_command) {
                Scan::Incomplete => ParseOutcome::Incomplete,
                Scan::Malformed => ParseOutcome::Malformed,
                Scan::Done((headers, hlen)) => {
                    let body_part = slice_subrange(s, e + 1 + hlen, s.len());
                    assert(body_part@ =~= s@.skip(e + 1 + hlen));
                    match read_body(body_part, &headers) {
                        Scan::Incomplete => ParseOutcome::Incomplete,
                        Scan::Malformed => ParseOutcome::Malformed,
                        Scan::Done((body, blen)) => {
                            let end: usize = lead + e + 1 + hlen + blen;
                            let tail = slice_subrange(input, end, input.len());
                            assert(tail@ =~= input@.skip(end as int));
                            let trailing = count_leading_lf(tail);
                            ParseOutcome::Complete {
                                frame: Frame { command: copy_bytes(command), headers, body },
                                consumed: end + trailing,
                            }
                        },
                    }
                },
            }
        },
    }
}

// ---------------------------------------------------------------------------
// Executable writer
// ---------------------------------------------------------------------------

impl Frame {
    /// The exact wire bytes of the frame: command line, headers in stored
    /// order, blank line, body if any, terminator.
    pub fn to_bytes(&self) -> (out: Vec<u8>)
        ensures
            out@ == wire(self@),
    {
        let mut out: Vec<u8> = Vec::new();
        push_bytes(&mut out, self.command.as_slice());
        out.push(LF);
        let ghost hs = headers_view(self.headers@);
        let ghost head = self.command@ + seq![LF];
        assert(out@ =~= head);
        let mut i: usize = 0;
        assert(hs.skip(0) =~= hs);
        while i < self.headers.len()
            invariant
                0 <= i <= self.headers@.len(),
                hs == headers_view(self.headers@),
                out@ + header_lines(hs.skip(i as int)) == head + header_lines(hs),
            decreases self.headers@.len() - i,
        {
            let ghost before = out@;
            push_escaped(&mut out, self.headers[i].0.as_slice());
            out.push(COLON);
            push_escaped(&mut out, self.headers[i].1.as_slice());
            out.push(LF);
            proof {
                let rest = hs.skip(i as int);
                assert(rest.skip(1) =~= hs.skip(i + 1));
                assert(rest[0] == hs[i as int]);
                assert(out@ =~= before + (header_line(hs[i as int]) + seq![LF]));
                assert(out@ + header_lines(hs.skip(i + 1)) =~= before + header_lines(rest));
            }
            i += 1;
        }
        assert(out@ =~= head + header_lines(hs)) by {
            assert(header_lines(hs.skip(i as int)) =~= Seq::<u8>::empty());
            assert(out@ + Seq::<u8>::empty() =~= out@);
        }
        out.push(LF);
        match &self.body {
            Some(b) => {
                push_bytes(&mut out, b.as_slice());
            },
            None => {},
        }
        out.push(NUL);
        assert(out@ =~= wire(self@));
        out
    }

    /// Appends the wire bytes of the frame to `dst`, which must be able to
    /// grow by that much.
    pub fn serialize(&self, dst: &mut BytesMut)
        requires
            buffered(old(dst)).len() + wire(self@).len() <= isize::MAX,
        ensures
            buffered(final(dst)) == buffered(old(dst)) + wire(self@),
    {
        let bytes = self.to_bytes();
        buffer_extend(dst, bytes.as_slice());
    }

    /// Appends the wire bytes of the frame to `dst` if `dst` can grow by
    /// that much, and tells whether it did. Otherwise `dst` is left as it is.
    pub fn try_serialize(&self, dst: &mut BytesMut) -> (done: bool)
        ensures
            done == (buffered(old(dst)).len() + wire(self@).len() <= isize::MAX),
            done ==> buffered(final(dst)) == buffered(old(dst)) + wire(self@),
            !done ==> buffered(final(dst)) == buffered(old(dst)),
    {
        let bytes = self.to_bytes();
        let held: usize = buffer_len(dst);
        let limit: usize = isize::MAX as usize;
        if held > limit || bytes.len() > limit - held {
            return false;
        }
        buffer_extend(dst, bytes.as_slice());
        true
    }
}

} // verus!

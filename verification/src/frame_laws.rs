//! What holds of the frame reader and writer together: a decision of the
//! reader never changes when more bytes arrive, a strict prefix of a frame
//! is never mistaken for a frame, and reading undoes writing.

use vstd::prelude::*;
use crate::escape::{escape, lemma_escape_is_clean, lemma_unescape_escape};
use crate::frame::{
    body_bytes, content_length_name, header_line, header_lines, is_command, is_upper, leading_lf,
    lemma_leading_lf_bounds, lemma_parse_body_bounds, lemma_parse_frame_bounds,
    lemma_parse_headers_bounds, lookup, parse_body, parse_frame_core, parse_frame_spec,
    parse_header_line, parse_headers, wire, FrameView, HeaderView, ParseResult, Scan,
};
use crate::text::{
    decimal_of, is_first_index, lemma_first_index, lemma_first_index_found, COLON, LF, NUL,
};

verus! {

// ---------------------------------------------------------------------------
// More bytes never change a decision
// ---------------------------------------------------------------------------

/// The first occurrence of a byte stays where it is when bytes are appended.
pub proof fn lemma_first_index_stable(s: Seq<u8>, x: Seq<u8>, target: u8)
    ensures
        s.index_of_first(target) matches Some(i) ==> (s + x).index_of_first(target) == Some(i),
{
    lemma_first_index(s, target);
    match s.index_of_first(target) {
        Some(i) => {
            assert(is_first_index(s + x, target, i)) by {
                assert((s + x)[i] == s[i]);
                assert forall|j: int| 0 <= j < i implies (s + x)[j] != target by {
                    assert((s + x)[j] == s[j]);
                }
            }
            lemma_first_index_found(s + x, target, i);
        },
        None => {},
    }
}

/// Appending bytes extends a run of leading line feeds only when the run
/// reaches the end.
pub proof fn lemma_leading_lf_append(s: Seq<u8>, x: Seq<u8>)
    ensures
        leading_lf(s + x) == if leading_lf(s) == s.len() {
            s.len() + leading_lf(x)
        } else {
            leading_lf(s)
        },
    decreases s.len(),
{
    if s.len() == 0 {
        assert(s + x =~= x);
    } else if s[0] == LF {
        assert((s + x)[0] == LF);
        assert((s + x).skip(1) =~= s.skip(1) + x);
        lemma_leading_lf_append(s.skip(1), x);
    } else {
        assert((s + x)[0] == s[0]);
    }
}

/// Dropping some of the leading line feeds leaves the others.
pub proof fn lemma_leading_lf_skip(s: Seq<u8>, k: int)
    requires
        0 <= k <= leading_lf(s),
    ensures
        leading_lf(s.skip(k)) == leading_lf(s) - k,
    decreases k,
{
    if k == 0 {
        assert(s.skip(0) =~= s);
    } else {
        lemma_leading_lf_bounds(s);
        assert(s.skip(k) =~= s.skip(1).skip(k - 1));
        lemma_leading_lf_skip(s.skip(1), k - 1);
    }
}

/// Header lines that were read completely, or found malformed, are read the
/// same way when more bytes follow.
pub proof fn lemma_parse_headers_stable(s: Seq<u8>, x: Seq<u8>)
    requires
        !(parse_headers(s) is Incomplete),
    ensures
        parse_headers(s + x) == parse_headers(s),
    decreases s.len(),
{
    lemma_first_index(s, LF);
    lemma_first_index_stable(s, x, LF);
    match s.index_of_first(LF) {
        None => {},
        Some(e) => {
            if e != 0 {
                assert((s + x).take(e) =~= s.take(e));
                if parse_header_line(s.take(e)) is Some {
                    assert((s + x).skip(e + 1) =~= s.skip(e + 1) + x);
                    lemma_parse_headers_stable(s.skip(e + 1), x);
                }
            }
        },
    }
}

/// A body that was read completely, or found malformed, is read the same
/// way when more bytes follow.
pub proof fn lemma_parse_body_stable(s: Seq<u8>, x: Seq<u8>, headers: Seq<HeaderView>)
    requires
        !(parse_body(s, headers) is Incomplete),
    ensures
        parse_body(s + x, headers) == parse_body(s, headers),
{
    lemma_first_index(s, NUL);
    lemma_first_index_stable(s, x, NUL);
    match lookup(headers, content_length_name()) {
        Some(v) => match decimal_of(v, usize::MAX as nat) {
            None => {},
            Some(n) => {
                assert((s + x)[n as int] == s[n as int]);
                assert((s + x).take(n as int) =~= s.take(n as int));
            },
        },
        None => match s.index_of_first(NUL) {
            None => {},
            Some(z) => {
                assert((s + x).take(z) =~= s.take(z));
            },
        },
    }
}

/// A frame at the front that was read completely, or found malformed, is
/// read the same way when more bytes follow.
pub proof fn lemma_parse_frame_core_stable(s: Seq<u8>, x: Seq<u8>)
    requires
        !(parse_frame_core(s) is Incomplete),
    ensures
        parse_frame_core(s + x) == parse_frame_core(s),
{
    lemma_first_index(s, LF);
    lemma_first_index_stable(s, x, LF);
    match s.index_of_first(LF) {
        None => {},
        Some(e) => {
            assert((s + x).take(e) =~= s.take(e));
            if is_command(s.take(e)) {
                let after = s.skip(e + 1);
                assert((s + x).skip(e + 1) =~= after + x);
                lemma_parse_headers_stable(after, x);
                lemma_parse_headers_bounds(after);
                match parse_headers(after) {
                    Scan::Done((headers, hlen)) => {
                        let rest = s.skip(e + 1 + hlen);
                        assert((s + x).skip(e + 1 + hlen) =~= rest + x);
                        lemma_parse_body_stable(rest, x, headers);
                    },
                    _ => {},
                }
            }
        },
    }
}

/// The number of bytes of `s` up to and including the terminator of the
/// frame that `parse_frame_spec` reads; zero where it reads none.
pub open spec fn terminator_end(s: Seq<u8>) -> int {
    match parse_frame_core(s.skip(leading_lf(s))) {
        ParseResult::Complete { frame, consumed } => leading_lf(s) + consumed,
        _ => 0,
    }
}

/// Once the reader has decided on some bytes, the decision stands however
/// many bytes follow: a malformed start stays malformed, and a frame that
/// was read is read again, unchanged, ending at the same terminator. The
/// only thing that can grow is the run of line feeds taken along after the
/// terminator, and only when the earlier bytes ended inside that run.
pub proof fn lemma_parse_frame_stable(s: Seq<u8>, x: Seq<u8>)
    requires
        !(parse_frame_spec(s) is Incomplete),
    ensures
        parse_frame_spec(s) is Malformed ==> parse_frame_spec(s + x) is Malformed,
        parse_frame_spec(s) matches ParseResult::Complete { frame, consumed } ==> parse_frame_spec(
            s + x,
        ) == (ParseResult::Complete {
            frame,
            consumed: if consumed == s.len() {
                consumed + leading_lf(x)
            } else {
                consumed
            },
        }),
        terminator_end(s + x) == terminator_end(s),
{
    let lead = leading_lf(s);
    let front = s.skip(lead);
    lemma_leading_lf_bounds(s);
    lemma_first_index(front, LF);
    lemma_leading_lf_append(s, x);
    assert(leading_lf(s + x) == lead);
    assert((s + x).skip(lead) =~= front + x);
    lemma_parse_frame_core_stable(front, x);
    lemma_parse_frame_bounds(front);
    match parse_frame_core(front) {
        ParseResult::Complete { frame, consumed } => {
            let end = lead + consumed;
            let tail = s.skip(end);
            assert((s + x).skip(end) =~= tail + x);
            lemma_leading_lf_append(tail, x);
            lemma_leading_lf_bounds(tail);
        },
        _ => {},
    }
}

/// A strict prefix of a frame is never taken for a frame, nor for a
/// malformed one: as long as the terminator has not arrived, the reader
/// asks for more bytes.
pub proof fn lemma_prefix_is_incomplete(s: Seq<u8>, k: int)
    requires
        parse_frame_spec(s) is Complete,
        0 <= k < terminator_end(s),
    ensures
        parse_frame_spec(s.take(k)) is Incomplete,
{
    let p = s.take(k);
    lemma_parse_frame_bounds(s);
    lemma_leading_lf_bounds(s);
    lemma_parse_frame_bounds(s.skip(leading_lf(s)));
    assert(p + s.skip(k) =~= s);
    if !(parse_frame_spec(p) is Incomplete) {
        lemma_parse_frame_stable(p, s.skip(k));
        lemma_leading_lf_bounds(p);
        lemma_parse_frame_bounds(p.skip(leading_lf(p)));
    }
}

/// Line feeds in front of a frame do not change what is read, only where
/// it ends.
pub proof fn lemma_parse_frame_skip_lf(s: Seq<u8>, k: int)
    requires
        0 <= k <= leading_lf(s),
    ensures
        parse_frame_spec(s) is Incomplete <==> parse_frame_spec(s.skip(k)) is Incomplete,
        parse_frame_spec(s) is Malformed <==> parse_frame_spec(s.skip(k)) is Malformed,
        parse_frame_spec(s) matches ParseResult::Complete { frame, consumed } ==> parse_frame_spec(
            s.skip(k),
        ) == (ParseResult::Complete { frame, consumed: consumed - k }),
{
    let lead = leading_lf(s);
    lemma_leading_lf_bounds(s);
    lemma_leading_lf_skip(s, k);
    assert(s.skip(k).skip(lead - k) =~= s.skip(lead));
    lemma_parse_frame_bounds(s.skip(lead));
    match parse_frame_core(s.skip(lead)) {
        ParseResult::Complete { frame, consumed } => {
            assert(s.skip(k).skip(lead - k + consumed) =~= s.skip(lead + consumed));
        },
        _ => {},
    }
}

// ---------------------------------------------------------------------------
// Reading undoes writing
// ---------------------------------------------------------------------------

/// A frame whose command is a command word and whose body agrees with
/// its headers: with a `content-length` header, the first one states the
/// length of the body, which is present; without one, a body is non-empty
/// and holds no zero byte.
pub open spec fn well_formed(f: FrameView) -> bool {
    &&& is_command(f.command)
    &&& match lookup(f.headers, content_length_name()) {
        Some(v) => f.body matches Some(b) && decimal_of(v, usize::MAX as nat) == Some(b.len()),
        None => f.body matches Some(b) ==> b.len() > 0 && forall|i: int|
            0 <= i < b.len() ==> b[i] != NUL,
    }
}

/// A written header line holds no line feed, and its first colon is the one
/// that separates name and value.
pub proof fn lemma_header_line_shape(h: HeaderView)
    ensures
        forall|i: int| 0 <= i < header_line(h).len() ==> header_line(h)[i] != LF,
        is_first_index(header_line(h), COLON, escape(h.0).len() as int),
{
    lemma_escape_is_clean(h.0);
    lemma_escape_is_clean(h.1);
    let n = escape(h.0);
    let v = escape(h.1);
    let line = header_line(h);
    assert forall|i: int| 0 <= i < line.len() implies line[i] != LF by {
        if i < n.len() {
            assert(line[i] == n[i]);
        } else if i == n.len() {
            assert(line[i] == COLON);
        } else {
            assert(line[i] == v[i - n.len() - 1]);
        }
    }
    assert(line[n.len() as int] == COLON);
    assert forall|j: int| 0 <= j < n.len() implies line[j] != COLON by {
        assert(line[j] == n[j]);
    }
}

/// A written header line is read back as the header.
pub proof fn lemma_header_line_round_trip(h: HeaderView)
    ensures
        parse_header_line(header_line(h)) == Some(h),
{
    let line = header_line(h);
    let c = escape(h.0).len() as int;
    lemma_header_line_shape(h);
    lemma_first_index_found(line, COLON, c);
    assert(line.take(c) =~= escape(h.0));
    assert(line.skip(c + 1) =~= escape(h.1));
    lemma_unescape_escape(h.0);
    lemma_unescape_escape(h.1);
}

/// Written header lines, closed by a blank line, are read back as the
/// headers, whatever follows.
pub proof fn lemma_headers_round_trip(hs: Seq<HeaderView>, tail: Seq<u8>)
    ensures
        parse_headers(header_lines(hs) + seq![LF] + tail) == Scan::Done(
            (hs, header_lines(hs).len() as int + 1),
        ),
    decreases hs.len(),
{
    let s = header_lines(hs) + seq![LF] + tail;
    if hs.len() == 0 {
        assert(s[0] == LF);
        lemma_first_index_found(s, LF, 0);
        assert(hs =~= Seq::<HeaderView>::empty());
    } else {
        let h = hs[0];
        let line = header_line(h);
        let rest = hs.skip(1);
        let e = line.len() as int;
        lemma_header_line_shape(h);
        assert(s =~= line + seq![LF] + (header_lines(rest) + seq![LF] + tail));
        assert(is_first_index(s, LF, e)) by {
            assert(s[e] == LF);
            assert forall|j: int| 0 <= j < e implies s[j] != LF by {
                assert(s[j] == line[j]);
            }
        }
        lemma_first_index_found(s, LF, e);
        assert(s.take(e) =~= line);
        lemma_header_line_round_trip(h);
        assert(s.skip(e + 1) =~= header_lines(rest) + seq![LF] + tail);
        lemma_headers_round_trip(rest, tail);
        assert(seq![h] + rest =~= hs);
    }
}

/// A written body with its terminator is read back as the body.
pub proof fn lemma_body_round_trip(f: FrameView)
    requires
        well_formed(f),
    ensures
        parse_body(body_bytes(f.body) + seq![NUL], f.headers) == Scan::Done(
            (f.body, body_bytes(f.body).len() as int + 1),
        ),
{
    let s = body_bytes(f.body) + seq![NUL];
    match lookup(f.headers, content_length_name()) {
        Some(v) => {
            let b = f.body->0;
            assert(s[b.len() as int] == NUL);
            assert(s.take(b.len() as int) =~= b);
        },
        None => {
            match f.body {
                Some(b) => {
                    assert(is_first_index(s, NUL, b.len() as int)) by {
                        assert(s[b.len() as int] == NUL);
                        assert forall|j: int| 0 <= j < b.len() implies s[j] != NUL by {
                            assert(s[j] == b[j]);
                        }
                    }
                    lemma_first_index_found(s, NUL, b.len() as int);
                    assert(s.take(b.len() as int) =~= b);
                },
                None => {
                    assert(s[0] == NUL);
                    lemma_first_index_found(s, NUL, 0);
                },
            }
        },
    }
}

/// Reading undoes writing: the wire bytes of a well-formed frame are read
/// back as that frame, and all of them are used.
pub proof fn lemma_frame_round_trip(f: FrameView)
    requires
        well_formed(f),
    ensures
        parse_frame_spec(wire(f)) == (ParseResult::Complete { frame: f, consumed: wire(f).len() as int }),
        terminator_end(wire(f)) == wire(f).len(),
{
    let w = wire(f);
    let c = f.command.len() as int;
    let body_part = body_bytes(f.body) + seq![NUL];
    let after = header_lines(f.headers) + seq![LF] + body_part;
    assert(w =~= f.command + seq![LF] + after);
    assert(is_upper(f.command[0]));
    assert(w[0] == f.command[0]);
    assert(leading_lf(w) == 0);
    assert(w.skip(0) =~= w);
    assert(is_first_index(w, LF, c)) by {
        assert(w[c] == LF);
        assert forall|j: int| 0 <= j < c implies w[j] != LF by {
            assert(w[j] == f.command[j]);
            assert(is_upper(f.command[j]));
        }
    }
    lemma_first_index_found(w, LF, c);
    assert(w.take(c) =~= f.command);
    assert(w.skip(c + 1) =~= after);
    lemma_headers_round_trip(f.headers, body_part);
    let hlen = header_lines(f.headers).len() + 1;
    assert(w.skip(c + 1 + hlen) =~= body_part);
    lemma_body_round_trip(f);
    assert(w.skip(w.len() as int) =~= Seq::<u8>::empty());
}

/// Every frame that the reader yields is well-formed.
pub proof fn lemma_parsed_frame_is_well_formed(s: Seq<u8>)
    ensures
        parse_frame_spec(s) matches ParseResult::Complete { frame, consumed } ==> well_formed(frame),
{
    let front = s.skip(leading_lf(s));
    lemma_first_index(front, LF);
    match front.index_of_first(LF) {
        None => {},
        Some(e) => {
            let after = front.skip(e + 1);
            lemma_parse_headers_bounds(after);
            match parse_headers(after) {
                Scan::Done((headers, hlen)) => {
                    let rest = front.skip(e + 1 + hlen);
                    lemma_first_index(rest, NUL);
                    lemma_parse_body_bounds(rest, headers);
                },
                _ => {},
            }
        },
    }
}

} // verus!

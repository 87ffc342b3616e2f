//! What holds of repeated decode calls on a buffer that fills up over time:
//! the messages that come out do not depend on how the bytes were cut
//! into chunks on their way.

use vstd::prelude::*;
use crate::client::{decode_spec, Decoded};
use crate::error::ClientError;
use crate::frame::{leading_lf, lemma_leading_lf_bounds, lemma_parse_frame_bounds};
use crate::frame_laws::{
    lemma_parse_frame_skip_lf, lemma_parse_frame_stable, lemma_prefix_is_incomplete,
    terminator_end,
};
use crate::message::{FromServerView, MessageView};
use crate::text::{lemma_first_index_absent, LF};

verus! {

/// What one decode call hands to its caller, when it hands over anything.
pub type Item = Result<MessageView<FromServerView>, ClientError>;

/// The result of a decode call with the outcome `d`; none for `Ok(None)`.
pub open spec fn decoded_item(d: Decoded) -> Option<Item> {
    match d {
        Decoded::NeedMore => None,
        Decoded::Malformed => Some(Err(ClientError::MalformedFrame)),
        Decoded::Message { message, consumed } => Some(Ok(message)),
        Decoded::Invalid { consumed } => Some(Err(ClientError::UnknownOrInvalidMessage)),
    }
}

/// The number of bytes that a decode call with the outcome `d` drops.
pub open spec fn decoded_len(d: Decoded) -> int {
    match d {
        Decoded::NeedMore => 0,
        Decoded::Malformed => 0,
        Decoded::Message { message, consumed } => consumed,
        Decoded::Invalid { consumed } => consumed,
    }
}

/// A decode call that drops bytes drops at least one, and no more than
/// there are.
pub proof fn lemma_decoded_len_bounds(buf: Seq<u8>)
    ensures
        0 <= decoded_len(decode_spec(buf)) <= buf.len(),
        decoded_len(decode_spec(buf)) == 0 <==> (decode_spec(buf) is NeedMore || decode_spec(
            buf,
        ) is Malformed),
{
    lemma_parse_frame_bounds(buf);
}

/// The results of decode calls made one after another on a buffer that
/// starts as `buf`, up to the first call that asks for more bytes or reports
/// a malformed frame. That report is the last result: the stream cannot
/// be read any further.
pub open spec fn decode_stream(buf: Seq<u8>) -> Seq<Item>
    decreases buf.len(),
{
    let d = decode_spec(buf);
    match decoded_item(d) {
        None => Seq::empty(),
        Some(item) => {
            if decoded_len(d) == 0 {
                seq![item]
            } else {
                proof {
                    lemma_decoded_len_bounds(buf);
                }
                seq![item] + decode_stream(buf.skip(decoded_len(d)))
            }
        },
    }
}

/// What is left in the buffer after the calls of [`decode_stream`].
pub open spec fn decode_residue(buf: Seq<u8>) -> Seq<u8>
    decreases buf.len(),
{
    let d = decode_spec(buf);
    if decoded_len(d) == 0 {
        buf
    } else {
        proof {
            lemma_decoded_len_bounds(buf);
        }
        decode_residue(buf.skip(decoded_len(d)))
    }
}

/// Whether the calls of [`decode_stream`] end on a malformed frame.
pub open spec fn stream_failed(buf: Seq<u8>) -> bool
    decreases buf.len(),
{
    let d = decode_spec(buf);
    if decoded_len(d) == 0 {
        d is Malformed
    } else {
        proof {
            lemma_decoded_len_bounds(buf);
        }
        stream_failed(buf.skip(decoded_len(d)))
    }
}

/// The results of decode calls on a buffer that starts as `buf` and receives
/// `chunks` one at a time: after each chunk, calls are made until one asks
/// for more bytes. A malformed frame ends everything.
pub open spec fn feed(buf: Seq<u8>, chunks: Seq<Seq<u8>>) -> Seq<Item>
    decreases chunks.len(),
{
    if chunks.len() == 0 {
        Seq::empty()
    } else {
        let filled = buf + chunks.first();
        if stream_failed(filled) {
            decode_stream(filled)
        } else {
            decode_stream(filled) + feed(decode_residue(filled), chunks.drop_first())
        }
    }
}

/// Line feeds at the front of the buffer do not change what comes out.
pub proof fn lemma_decode_stream_skip_lf(s: Seq<u8>, k: int)
    requires
        0 <= k <= leading_lf(s),
    ensures
        decode_stream(s.skip(k)) == decode_stream(s),
        stream_failed(s.skip(k)) == stream_failed(s),
{
    lemma_parse_frame_skip_lf(s, k);
    lemma_parse_frame_bounds(s);
    lemma_parse_frame_bounds(s.skip(k));
    lemma_leading_lf_bounds(s);
    let n = decoded_len(decode_spec(s));
    if n != 0 {
        assert(decoded_len(decode_spec(s.skip(k))) == n - k);
        assert(s.skip(k).skip(n - k) =~= s.skip(n));
    }
}

/// What is left after draining a buffer holds no further message, unless
/// the stream failed.
pub proof fn lemma_residue_is_drained(buf: Seq<u8>)
    ensures
        !stream_failed(buf) ==> decode_spec(decode_residue(buf)) is NeedMore,
        !stream_failed(buf) ==> decode_stream(decode_residue(buf)) == Seq::<Item>::empty(),
    decreases buf.len(),
{
    let d = decode_spec(buf);
    lemma_decoded_len_bounds(buf);
    if decoded_len(d) != 0 {
        lemma_residue_is_drained(buf.skip(decoded_len(d)));
    }
}

/// Bytes that arrive later never change what came out before: the results
/// on `b + e` are the results on `b`, followed by the results on what `b`
/// left behind together with `e`.
pub proof fn lemma_decode_stream_append(b: Seq<u8>, e: Seq<u8>)
    ensures
        stream_failed(b) ==> decode_stream(b + e) == decode_stream(b),
        !stream_failed(b) ==> decode_stream(b + e) == decode_stream(b) + decode_stream(
            decode_residue(b) + e,
        ),
    decreases b.len(),
{
    let d = decode_spec(b);
    lemma_decoded_len_bounds(b);
    lemma_parse_frame_bounds(b);
    if d is NeedMore {
        assert(decode_stream(b) + decode_stream(b + e) =~= decode_stream(b + e));
    } else {
        lemma_parse_frame_stable(b, e);
        lemma_parse_frame_bounds(b + e);
        if !(d is Malformed) {
            let n = decoded_len(d);
            let n2 = decoded_len(decode_spec(b + e));
            let item = decoded_item(d)->0;
            assert(decoded_item(decode_spec(b + e)) == Some(item));
            let rest = b.skip(n);
            assert(decode_stream((b + e).skip(n2)) == decode_stream(rest + e)) by {
                if n == b.len() {
                    lemma_leading_lf_bounds(e);
                    assert(rest + e =~= e);
                    assert((b + e).skip(n2) =~= e.skip(leading_lf(e)));
                    lemma_decode_stream_skip_lf(e, leading_lf(e));
                } else {
                    assert((b + e).skip(n2) =~= rest + e);
                }
            }
            lemma_decode_stream_append(rest, e);
            if !stream_failed(b) {
                assert(seq![item] + (decode_stream(rest) + decode_stream(decode_residue(rest) + e))
                    =~= (seq![item] + decode_stream(rest)) + decode_stream(
                    decode_residue(rest) + e,
                ));
            }
        }
    }
}

/// Feeding chunks one at a time into a drained buffer gives the results of
/// decoding the buffer with all the chunks in it at once.
pub proof fn lemma_feed_is_decode_stream(buf: Seq<u8>, chunks: Seq<Seq<u8>>)
    requires
        decode_spec(buf) is NeedMore,
    ensures
        feed(buf, chunks) == decode_stream(buf + chunks.flatten()),
    decreases chunks.len(),
{
    if chunks.len() == 0 {
        assert(buf + chunks.flatten() =~= buf);
    } else {
        let filled = buf + chunks.first();
        let later = chunks.drop_first();
        assert(buf + chunks.flatten() =~= filled + later.flatten());
        lemma_decode_stream_append(filled, later.flatten());
        if !stream_failed(filled) {
            lemma_residue_is_drained(filled);
            lemma_feed_is_decode_stream(decode_residue(filled), later);
        }
    }
}

/// However a byte sequence is cut into chunks, feeding the chunks one at
/// a time to the decode loop gives exactly the results of feeding the whole
/// sequence as one chunk.
pub proof fn lemma_chunking_is_invisible(chunks: Seq<Seq<u8>>)
    ensures
        feed(Seq::empty(), chunks) == decode_stream(chunks.flatten()),
        feed(Seq::empty(), chunks) == feed(Seq::empty(), seq![chunks.flatten()]),
{
    let empty = Seq::<u8>::empty();
    let whole = chunks.flatten();
    assert(leading_lf(empty) == 0);
    assert(empty.skip(0) =~= empty);
    assert(empty.index_of_first(LF) is None) by {
        lemma_first_index_absent(empty, LF);
    }
    assert(decode_spec(empty) is NeedMore);
    lemma_feed_is_decode_stream(empty, chunks);
    assert(empty + whole =~= whole);
    let one = seq![whole];
    assert(one.first() == whole);
    assert(one.drop_first() =~= Seq::<Seq<u8>>::empty());
    assert(feed(decode_residue(whole), one.drop_first()) =~= Seq::<Item>::empty());
    assert(decode_stream(whole) + Seq::<Item>::empty() =~= decode_stream(whole));
}

/// While the terminator of a frame has not arrived, a decode call yields
/// no message and reports no failure; by the contract of `decode` it leaves
/// the buffer as it is. With the rest of the bytes appended, the call sees
/// the whole buffer again and yields the message.
pub proof fn lemma_strict_prefix_needs_more(buf: Seq<u8>, k: int)
    requires
        decode_spec(buf) is Message || decode_spec(buf) is Invalid,
        0 <= k < terminator_end(buf),
    ensures
        decode_spec(buf.take(k)) is NeedMore,
        decode_spec(buf.take(k) + buf.skip(k)) == decode_spec(buf),
{
    lemma_prefix_is_incomplete(buf, k);
    lemma_parse_frame_bounds(buf);
    lemma_leading_lf_bounds(buf);
    lemma_parse_frame_bounds(buf.skip(leading_lf(buf)));
    assert(buf.take(k) + buf.skip(k) =~= buf);
}

/// Two frames in one chunk come out as two messages, in order, in two
/// decode calls: the first call drops the first frame (and the line feeds
/// up to the second), the second call drops the second.
pub proof fn lemma_two_frames_in_one_chunk(w1: Seq<u8>, w2: Seq<u8>)
    requires
        decode_spec(w1) is Message,
        decoded_len(decode_spec(w1)) == w1.len(),
        decode_spec(w2) is Message,
    ensures
        decode_spec(w1 + w2) is Message,
        decoded_item(decode_spec(w1 + w2)) == decoded_item(decode_spec(w1)),
        decode_spec((w1 + w2).skip(decoded_len(decode_spec(w1 + w2)))) is Message,
        decoded_item(decode_spec((w1 + w2).skip(decoded_len(decode_spec(w1 + w2)))))
            == decoded_item(decode_spec(w2)),
        decoded_len(decode_spec(w1 + w2)) + decoded_len(
            decode_spec((w1 + w2).skip(decoded_len(decode_spec(w1 + w2)))),
        ) == w1.len() + decoded_len(decode_spec(w2)),
{
    let k = leading_lf(w2);
    lemma_parse_frame_stable(w1, w2);
    lemma_leading_lf_bounds(w2);
    lemma_parse_frame_skip_lf(w2, k);
    assert((w1 + w2).skip(w1.len() + k) =~= w2.skip(k));
}

} // verus!

//! The codec that a connection runs its bytes through, and builders for
//! common messages.

use vstd::prelude::*;
use bytes::BytesMut;
use crate::buffer::{buffer_advance, buffer_bytes, buffered};
use crate::error::ClientError;
use crate::frame::{parse_frame, parse_frame_spec, wire, ParseOutcome, ParseResult};
use crate::message::{
    from_server_message, to_server_frame, FromServer, FromServerView, Message, MessageView,
    ToServer, ToServerView,
};

verus! {

/// Turns buffered bytes into messages from the server, and messages to
/// the server into bytes. It keeps no state of its own: what has arrived
/// and is not yet a whole frame stays in the buffer.
#[derive(Debug, Clone, Copy, Default)]
pub struct ClientCodec;

/// What one call of [`ClientCodec::decode`] does on a buffer.
pub enum Decoded {
    /// No message yet: the buffered bytes end before a frame does.
    NeedMore,
    /// The buffered bytes cannot be the start of any frame.
    Malformed,
    /// A message, read from the first `consumed` bytes.
    Message { message: MessageView<FromServerView>, consumed: int },
    /// A frame in the first `consumed` bytes that stands for no message from
    /// the server.
    Invalid { consumed: int },
}

/// The outcome of one decode call on the bytes `buf`: the reader is run
/// once, and a frame it yields is mapped to a message.
pub open spec fn decode_spec(buf: Seq<u8>) -> Decoded {
    match parse_frame_spec(buf) {
        ParseResult::Incomplete => Decoded::NeedMore,
        ParseResult::Malformed => Decoded::Malformed,
        ParseResult::Complete { frame, consumed } => match from_server_message(frame) {
            Ok(message) => Decoded::Message { message, consumed },
            Err(_) => Decoded::Invalid { consumed },
        },
    }
}

impl ClientCodec {
    /// Tries to take one message from the front of `src`.
    ///
    /// - While the buffered bytes end before a frame does, the result is
    ///   `Ok(None)` and `src` is left as it is.
    /// - When they cannot be the start of a frame, the result is
    ///   `Err(MalformedFrame)` and `src` is left as it is.
    /// - Otherwise the bytes of one frame, with the line feeds around it, are
    ///   dropped from the front of `src`, and nothing else is; the result is
    ///   the message the frame stands for, or `Err(UnknownOrInvalidMessage)`
    ///   when it stands for none.
    pub fn decode(&mut self, src: &mut BytesMut) -> (r: Result<
        Option<Message<FromServer>>,
        ClientError,
    >)
        ensures
            match decode_spec(buffered(old(src))) {
                Decoded::NeedMore => {
                    &&& r matches Ok(None)
                    &&& buffered(final(src)) == buffered(old(src))
                },
                Decoded::Malformed => {
                    &&& r matches Err(ClientError::MalformedFrame)
                    &&& buffered(final(src)) == buffered(old(src))
                },
                Decoded::Message { message, consumed } => {
                    &&& r matches Ok(Some(m))
                    &&& m@ == message
                    &&& buffered(final(src)) == buffered(old(src)).skip(consumed)
                },
                Decoded::Invalid { consumed } => {
                    &&& r matches Err(ClientError::UnknownOrInvalidMessage)
                    &&& buffered(final(src)) == buffered(old(src)).skip(consumed)
                },
            },
    {
        match parse_frame(buffer_bytes(src)) {
            ParseOutcome::Incomplete => Ok(None),
            ParseOutcome::Malformed => Err(ClientError::MalformedFrame),
            ParseOutcome::Complete { frame, consumed } => {
                let item = Message::<FromServer>::from_frame(frame);
                buffer_advance(src, consumed);
                match item {
                    Ok(m) => Ok(Some(m)),
                    Err(e) => Err(e),
                }
            },
        }
    }

    /// Appends the wire bytes of `item` to `dst`, which must be able to grow
    /// by that much. Never fails.
    pub fn encode(&mut self, item: Message<ToServer>, dst: &mut BytesMut) -> (r: Result<
        (),
        ClientError,
    >)
        requires
            buffered(old(dst)).len() + wire(to_server_frame(item@)).len() <= isize::MAX,
        ensures
            r is Ok,
            buffered(final(dst)) == buffered(old(dst)) + wire(to_server_frame(item@)),
    {
        item.to_frame().serialize(dst);
        Ok(())
    }

    /// Appends the wire bytes of `item` to `dst` if `dst` can grow by that
    /// much, and tells whether it did. Otherwise `dst` is left as it is.
    pub fn try_encode(&mut self, item: &Message<ToServer>, dst: &mut BytesMut) -> (done: bool)
        ensures
            done == (buffered(old(dst)).len() + wire(to_server_frame(item@)).len() <= isize::MAX),
            done ==> buffered(final(dst)) == buffered(old(dst)) + wire(to_server_frame(item@)),
            !done ==> buffered(final(dst)) == buffered(old(dst)),
    {
        item.to_frame().try_serialize(dst)
    }
}

/// A `Subscribe` message for the destination `dest` under the subscription
/// id `id`, with the server's default acknowledgement mode and no other
/// headers.
pub fn subscribe(dest: &str, id: &str) -> (m: Message<ToServer>)
    ensures
        m@ == (MessageView {
            content: ToServerView::Subscribe { destination: dest@, id: id@, ack: None },
            extra_headers: Seq::empty(),
        }),
{
    ToServer::Subscribe { destination: dest.to_owned(), id: id.to_owned(), ack: None }.into()
}

} // verus!

//! The login handshake: what the client sends first, and what it makes of
//! the first reply. The caller does the sending and the receiving.

use vstd::prelude::*;
use crate::error::ClientError;
use crate::message::{
    text_view, FromServer, FromServerView, Message, MessageView, ToServer, ToServerView,
};

verus! {

/// Where the handshake stands.
#[derive(Debug, Clone, Copy, PartialEq, Eq, Structural)]
pub enum HandshakeState {
    /// The connection request is out; the first reply decides.
    AwaitingConnected,
    /// The server has accepted; the connection is open.
    Connected,
}

/// The connection request for `address`: protocol version 1.2, the given
/// credentials, no heart-beat negotiation, no other headers.
pub open spec fn connect_request_spec(
    address: Seq<char>,
    login: Option<Seq<char>>,
    passcode: Option<Seq<char>>,
) -> MessageView<ToServerView> {
    MessageView {
        content: ToServerView::Connect {
            accept_version: "1.2"@,
            host: address,
            login,
            passcode,
            heartbeat: None,
        },
        extra_headers: Seq::empty(),
    }
}

/// The message that opens the handshake. Once it is sent, the handshake is
/// in the state `AwaitingConnected`.
pub fn connect_request(address: &str, login: Option<String>, passcode: Option<String>) -> (m:
    Message<ToServer>)
    ensures
        m@ == connect_request_spec(address@, text_view(login), text_view(passcode)),
{
    let m = Message {
        content: ToServer::Connect {
            accept_version: "1.2".to_owned(),
            host: address.to_owned(),
            login,
            passcode,
            heartbeat: None,
        },
        extra_headers: Vec::new(),
    };
    assert(m@.extra_headers =~= Seq::empty());
    m
}

/// What a reply is to the handshake: the content of the message, or
/// nothing when the stream ended first.
pub open spec fn reply_view(reply: Option<&Message<FromServer>>) -> Option<FromServerView> {
    match reply {
        Some(m) => Some(m@.content),
        None => None,
    }
}

/// The next state of the handshake on a reply. While the client waits, an
/// acceptance opens the connection and anything else, the end of the
/// stream too, rejects it for good. An open connection stays open.
pub open spec fn client_handshake_spec(state: HandshakeState, reply: Option<FromServerView>) -> Result<
    HandshakeState,
    ClientError,
> {
    match state {
        HandshakeState::AwaitingConnected => {
            if reply matches Some(FromServerView::Connected { .. }) {
                Ok(HandshakeState::Connected)
            } else {
                Err(ClientError::HandshakeRejected)
            }
        },
        HandshakeState::Connected => Ok(HandshakeState::Connected),
    }
}

/// Decides the handshake on the first reply, `None` standing for a stream
/// that ended before any reply. There is no retry: after a rejection the
/// connection attempt is over.
pub fn client_handshake(state: HandshakeState, reply: Option<&Message<FromServer>>) -> (r: Result<
    HandshakeState,
    ClientError,
>)
    ensures
        r == client_handshake_spec(state, reply_view(reply)),
{
    match state {
        HandshakeState::AwaitingConnected => match reply {
            Some(m) => match &m.content {
                FromServer::Connected { .. } => Ok(HandshakeState::Connected),
                _ => Err(ClientError::HandshakeRejected),
            },
            None => Err(ClientError::HandshakeRejected),
        },
        HandshakeState::Connected => Ok(HandshakeState::Connected),
    }
}

} // verus!

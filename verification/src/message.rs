//! Typed messages, one closed sum type per direction, and their mapping to
//! and from frames.

use vstd::prelude::*;
use vstd::slice::{slice_subrange, slice_to_vec};
use vstd::utf8::{decode_utf8, encode_utf8, encode_utf8_decode_utf8, valid_utf8};
use crate::error::ClientError;
use crate::frame::{
    bytes_view, content_length_name, headers_view, lookup, lookup_header, FrameView, Header,
    HeaderView,
};
use crate::names::{
    abort_command, accept_version_name, ack_command, ack_name, ack_name_bytes, auto_text,
    auto_text_bytes, begin_command, client_individual_text, client_individual_text_bytes,
    client_text, client_text_bytes, commit_command, connect_command, connected_command,
    destination_name, disconnect_command, error_command, heart_beat_name,
    heart_beat_name_bytes, host_name, id_name, login_name, message_command, message_id_name,
    message_name, nack_command, passcode_name, receipt_command, receipt_id_name, receipt_name,
    send_command, server_name, session_name, subscribe_command, subscription_name,
    transaction_name, unsubscribe_command, version_name, COMMA,
};
use crate::text::{
    bytes_eq, copy_bytes, decimal_digits, decimal_of, find_byte, lemma_first_index,
    parse_decimal, push_decimal,
};

verus! {

// ---------------------------------------------------------------------------
// The message types
// ---------------------------------------------------------------------------

/// How the client acknowledges the messages of a subscription.
#[derive(Debug, Clone, Copy, PartialEq, Eq, Structural)]
pub enum AckMode {
    Auto,
    Client,
    ClientIndividual,
}

/// A message that the client sends.
#[derive(Debug, Clone, PartialEq, Eq)]
pub enum ToServer {
    /// Opens the session.
    Connect {
        accept_version: String,
        host: String,
        login: Option<String>,
        passcode: Option<String>,
        heartbeat: Option<(u32, u32)>,
    },
    /// Sends a payload to a destination.
    Send { destination: String, transaction: Option<String>, body: Option<Vec<u8>> },
    /// Starts listening to a destination.
    Subscribe { destination: String, id: String, ack: Option<AckMode> },
    /// Ends a subscription.
    Unsubscribe { id: String },
    /// Acknowledges that a message was consumed.
    Ack { id: String, transaction: Option<String> },
    /// Tells the server that a message was not consumed.
    Nack { id: String, transaction: Option<String> },
    /// Starts a transaction.
    Begin { transaction: String },
    /// Commits a transaction.
    Commit { transaction: String },
    /// Rolls a transaction back.
    Abort { transaction: String },
    /// Closes the session.
    Disconnect { receipt: Option<String> },
}

/// A message that the server sends.
#[derive(Debug, Clone, PartialEq, Eq)]
pub enum FromServer {
    /// The session is open.
    Connected {
        version: String,
        session: Option<String>,
        server: Option<String>,
        heartbeat: Option<String>,
    },
    /// A payload from a subscription.
    Message { destination: String, message_id: String, subscription: String, body: Option<Vec<u8>> },
    /// A client frame that asked for a receipt was processed.
    Receipt { receipt_id: String },
    /// Something went wrong; the server closes the connection next.
    Error { message: Option<String>, body: Option<Vec<u8>> },
}

/// A typed message together with the headers that its type does not model.
#[derive(Debug, Clone, PartialEq, Eq)]
pub struct Message<T> {
    /// The typed content.
    pub content: T,
    /// The other headers, in wire order, passed through as they are.
    pub extra_headers: Vec<Header>,
}

/// The mathematical content of a [`ToServer`].
pub enum ToServerView {
    Connect {
        accept_version: Seq<char>,
        host: Seq<char>,
        login: Option<Seq<char>>,
        passcode: Option<Seq<char>>,
        heartbeat: Option<(u32, u32)>,
    },
    Send { destination: Seq<char>, transaction: Option<Seq<char>>, body: Option<Seq<u8>> },
    Subscribe { destination: Seq<char>, id: Seq<char>, ack: Option<AckMode> },
    Unsubscribe { id: Seq<char> },
    Ack { id: Seq<char>, transaction: Option<Seq<char>> },
    Nack { id: Seq<char>, transaction: Option<Seq<char>> },
    Begin { transaction: Seq<char> },
    Commit { transaction: Seq<char> },
    Abort { transaction: Seq<char> },
    Disconnect { receipt: Option<Seq<char>> },
}

/// The mathematical content of a [`FromServer`].
pub enum FromServerView {
    Connected {
        version: Seq<char>,
        session: Option<Seq<char>>,
        server: Option<Seq<char>>,
        heartbeat: Option<Seq<char>>,
    },
    Message {
        destination: Seq<char>,
        message_id: Seq<char>,
        subscription: Seq<char>,
        body: Option<Seq<u8>>,
    },
    Receipt { receipt_id: Seq<char> },
    Error { message: Option<Seq<char>>, body: Option<Seq<u8>> },
}

/// The mathematical content of a [`Message`].
pub struct MessageView<C> {
    pub content: C,
    pub extra_headers: Seq<HeaderView>,
}

/// The characters of an optional string.
pub open spec fn text_view(s: Option<String>) -> Option<Seq<char>> {
    match s {
        Some(t) => Some(t@),
        None => None,
    }
}

impl View for ToServer {
    type V = ToServerView;

    open spec fn view(&self) -> ToServerView {
        match self {
            ToServer::Connect { accept_version, host, login, passcode, heartbeat } => {
                ToServerView::Connect {
                    accept_version: accept_version@,
                    host: host@,
                    login: text_view(*login),
                    passcode: text_view(*passcode),
                    heartbeat: *heartbeat,
                }
            },
            ToServer::Send { destination, transaction, body } => ToServerView::Send {
                destination: destination@,
                transaction: text_view(*transaction),
                body: bytes_view(*body),
            },
            ToServer::Subscribe { destination, id, ack } => ToServerView::Subscribe {
                destination: destination@,
                id: id@,
                ack: *ack,
            },
            ToServer::Unsubscribe { id } => ToServerView::Unsubscribe { id: id@ },
            ToServer::Ack { id, transaction } => ToServerView::Ack {
                id: id@,
                transaction: text_view(*transaction),
            },
            ToServer::Nack { id, transaction } => ToServerView::Nack {
                id: id@,
                transaction: text_view(*transaction),
            },
            ToServer::Begin { transaction } => ToServerView::Begin { transaction: transaction@ },
            ToServer::Commit { transaction } => ToServerView::Commit { transaction: transaction@ },
            ToServer::Abort { transaction } => ToServerView::Abort { transaction: transaction@ },
            ToServer::Disconnect { receipt } => ToServerView::Disconnect {
                receipt: text_view(*receipt),
            },
        }
    }
}

impl View for FromServer {
    type V = FromServerView;

    open spec fn view(&self) -> FromServerView {
        match self {
            FromServer::Connected { version, session, server, heartbeat } => {
                FromServerView::Connected {
                    version: version@,
                    session: text_view(*session),
                    server: text_view(*server),
                    heartbeat: text_view(*heartbeat),
                }
            },
            FromServer::Message { destination, message_id, subscription, body } => {
                FromServerView::Message {
                    destination: destination@,
                    message_id: message_id@,
                    subscription: subscription@,
                    body: bytes_view(*body),
                }
            },
            FromServer::Receipt { receipt_id } => FromServerView::Receipt {
                receipt_id: receipt_id@,
            },
            FromServer::Error { message, body } => FromServerView::Error {
                message: text_view(*message),
                body: bytes_view(*body),
            },
        }
    }
}

impl<T: View> View for Message<T> {
    type V = MessageView<T::V>;

    open spec fn view(&self) -> MessageView<T::V> {
        MessageView { content: self.content@, extra_headers: headers_view(self.extra_headers@) }
    }
}

impl From<ToServer> for Message<ToServer> {
    /// The message with the given content and no other headers.
    fn from(content: ToServer) -> (m: Message<ToServer>)
        ensures
            m@ == (MessageView { content: content@, extra_headers: Seq::empty() }),
    {
        let m = Message { content, extra_headers: Vec::new() };
        assert(m@.extra_headers =~= Seq::empty());
        m
    }
}

impl vstd::std_specs::convert::FromSpecImpl<ToServer> for Message<ToServer> {
    open spec fn obeys_from_spec() -> bool {
        false
    }

    open spec fn from_spec(content: ToServer) -> Message<ToServer> {
        arbitrary()
    }
}

// ---------------------------------------------------------------------------
// Header values
// ---------------------------------------------------------------------------

/// A header that a message type models: its name, and its value when the
/// message carries one.
pub type Slot = (Seq<u8>, Option<Seq<u8>>);

/// A [`Slot`] as it is held in memory.
pub type SlotBytes = (Vec<u8>, Option<Vec<u8>>);

/// The slots of a vector as pairs of sequences.
pub open spec fn slots_view(slots: Seq<SlotBytes>) -> Seq<Slot> {
    Seq::new(slots.len(), |i: int| (slots[i].0@, bytes_view(slots[i].1)))
}

/// The names of a vector as sequences.
pub open spec fn names_view(names: Seq<Vec<u8>>) -> Seq<Seq<u8>> {
    Seq::new(names.len(), |i: int| names[i]@)
}

/// The headers written for some slots: one for each slot that has a value,
/// in the order of the slots.
pub open spec fn present(slots: Seq<Slot>) -> Seq<HeaderView>
    decreases slots.len(),
{
    if slots.len() == 0 {
        Seq::empty()
    } else {
        match slots[0].1 {
            Some(v) => seq![(slots[0].0, v)] + present(slots.skip(1)),
            None => present(slots.skip(1)),
        }
    }
}

/// The names of some slots.
pub open spec fn slot_names(slots: Seq<Slot>) -> Seq<Seq<u8>> {
    Seq::new(slots.len(), |i: int| slots[i].0)
}

/// The headers of `hs` whose name is none of `keys`, in their order.
pub open spec fn without_names(hs: Seq<HeaderView>, keys: Seq<Seq<u8>>) -> Seq<HeaderView>
    decreases hs.len(),
{
    if hs.len() == 0 {
        Seq::empty()
    } else if keys.contains(hs[0].0) {
        without_names(hs.skip(1), keys)
    } else {
        seq![hs[0]] + without_names(hs.skip(1), keys)
    }
}

/// The UTF-8 bytes of an optional text.
pub open spec fn opt_text(s: Option<Seq<char>>) -> Option<Seq<u8>> {
    match s {
        Some(t) => Some(encode_utf8(t)),
        None => None,
    }
}

/// The value of a `content-length` header for a body.
pub open spec fn length_text(body: Option<Seq<u8>>) -> Option<Seq<u8>> {
    match body {
        Some(b) => Some(decimal_digits(b.len())),
        None => None,
    }
}

/// The value of a `heart-beat` header: two decimal numbers and a comma.
pub open spec fn heartbeat_text(hb: (u32, u32)) -> Seq<u8> {
    decimal_digits(hb.0 as nat) + seq![COMMA] + decimal_digits(hb.1 as nat)
}

/// The value of an optional `heart-beat` header.
pub open spec fn opt_heartbeat_text(hb: Option<(u32, u32)>) -> Option<Seq<u8>> {
    match hb {
        Some(pair) => Some(heartbeat_text(pair)),
        None => None,
    }
}

/// The two numbers of a `heart-beat` value, when it is two decimal numbers
/// around a comma and both fit 32 bits.
pub open spec fn heartbeat_of(v: Seq<u8>) -> Option<(u32, u32)> {
    match v.index_of_first(COMMA) {
        None => None,
        Some(c) => match (
            decimal_of(v.take(c), u32::MAX as nat),
            decimal_of(v.skip(c + 1), u32::MAX as nat),
        ) {
            (Some(a), Some(b)) => Some((a as u32, b as u32)),
            _ => None,
        },
    }
}

/// The value of an `ack` header.
pub open spec fn ack_text(mode: AckMode) -> Seq<u8> {
    match mode {
        AckMode::Auto => auto_text(),
        AckMode::Client => client_text(),
        AckMode::ClientIndividual => client_individual_text(),
    }
}

/// The value of an optional `ack` header.
pub open spec fn opt_ack_text(mode: Option<AckMode>) -> Option<Seq<u8>> {
    match mode {
        Some(m) => Some(ack_text(m)),
        None => None,
    }
}

/// The acknowledgement mode that an `ack` value names.
pub open spec fn ack_of(v: Seq<u8>) -> Option<AckMode> {
    if v == auto_text() {
        Some(AckMode::Auto)
    } else if v == client_text() {
        Some(AckMode::Client)
    } else if v == client_individual_text() {
        Some(AckMode::ClientIndividual)
    } else {
        None
    }
}

/// The text of the first header called `name`; none when there is no such
/// header or its value is not UTF-8.
pub open spec fn header_text(hs: Seq<HeaderView>, name: Seq<u8>) -> Option<Seq<char>> {
    match lookup(hs, name) {
        Some(v) => if valid_utf8(v) {
            Some(decode_utf8(v))
        } else {
            None
        },
        None => None,
    }
}

/// The numbers of the first `heart-beat` header, when it has the right form.
pub open spec fn header_heartbeat(hs: Seq<HeaderView>) -> Option<(u32, u32)> {
    match lookup(hs, heart_beat_name()) {
        Some(v) => heartbeat_of(v),
        None => None,
    }
}

/// The mode of the first `ack` header, when it names one.
pub open spec fn header_ack(hs: Seq<HeaderView>) -> Option<AckMode> {
    match lookup(hs, ack_name()) {
        Some(v) => ack_of(v),
        None => None,
    }
}

// ---------------------------------------------------------------------------
// Messages to the server: to a frame
// ---------------------------------------------------------------------------

impl ToServerView {
    /// The command of the frame that stands for the message.
    pub open spec fn command(self) -> Seq<u8> {
        match self {
            ToServerView::Connect { .. } => connect_command(),
            ToServerView::Send { .. } => send_command(),
            ToServerView::Subscribe { .. } => subscribe_command(),
            ToServerView::Unsubscribe { .. } => unsubscribe_command(),
            ToServerView::Ack { .. } => ack_command(),
            ToServerView::Nack { .. } => nack_command(),
            ToServerView::Begin { .. } => begin_command(),
            ToServerView::Commit { .. } => commit_command(),
            ToServerView::Abort { .. } => abort_command(),
            ToServerView::Disconnect { .. } => disconnect_command(),
        }
    }

    /// The headers that the message's type models, in wire order. The last
    /// one is always `content-length`, which has a value exactly when the
    /// message has a body.
    pub open spec fn slots(self) -> Seq<Slot> {
        match self {
            ToServerView::Connect { accept_version, host, login, passcode, heartbeat } => seq![
                (accept_version_name(), Some(encode_utf8(accept_version))),
                (host_name(), Some(encode_utf8(host))),
                (login_name(), opt_text(login)),
                (passcode_name(), opt_text(passcode)),
                (heart_beat_name(), opt_heartbeat_text(heartbeat)),
                (content_length_name(), None),
            ],
            ToServerView::Send { destination, transaction, body } => seq![
                (destination_name(), Some(encode_utf8(destination))),
                (transaction_name(), opt_text(transaction)),
                (content_length_name(), length_text(body)),
            ],
            ToServerView::Subscribe { destination, id, ack } => seq![
                (destination_name(), Some(encode_utf8(destination))),
                (id_name(), Some(encode_utf8(id))),
                (ack_name(), opt_ack_text(ack)),
                (content_length_name(), None),
            ],
            ToServerView::Unsubscribe { id } => seq![
                (id_name(), Some(encode_utf8(id))),
                (content_length_name(), None),
            ],
            ToServerView::Ack { id, transaction } => seq![
                (id_name(), Some(encode_utf8(id))),
                (transaction_name(), opt_text(transaction)),
                (content_length_name(), None),
            ],
            ToServerView::Nack { id, transaction } => seq![
                (id_name(), Some(encode_utf8(id))),
                (transaction_name(), opt_text(transaction)),
                (content_length_name(), None),
            ],
            ToServerView::Begin { transaction } => seq![
                (transaction_name(), Some(encode_utf8(transaction))),
                (content_length_name(), None),
            ],
            ToServerView::Commit { transaction } => seq![
                (transaction_name(), Some(encode_utf8(transaction))),
                (content_length_name(), None),
            ],
            ToServerView::Abort { transaction } => seq![
                (transaction_name(), Some(encode_utf8(transaction))),
                (content_length_name(), None),
            ],
            ToServerView::Disconnect { receipt } => seq![
                (receipt_name(), opt_text(receipt)),
                (content_length_name(), None),
            ],
        }
    }

    /// The body of the frame that stands for the message.
    pub open spec fn body(self) -> Option<Seq<u8>> {
        match self {
            ToServerView::Send { body, .. } => body,
            _ => None,
        }
    }
}

/// The frame that stands for a message to the server: its command, the
/// headers of its type, its other headers as they are, and its body.
pub open spec fn to_server_frame(m: MessageView<ToServerView>) -> FrameView {
    FrameView {
        command: m.content.command(),
        headers: present(m.content.slots()) + m.extra_headers,
        body: m.content.body(),
    }
}

// ---------------------------------------------------------------------------
// Messages to the server: from a frame
// ---------------------------------------------------------------------------

/// The header names that the type of a message to the server models,
/// by command.
pub open spec fn to_server_keys(command: Seq<u8>) -> Seq<Seq<u8>> {
    if command == connect_command() {
        seq![
            accept_version_name(),
            host_name(),
            login_name(),
            passcode_name(),
            heart_beat_name(),
            content_length_name(),
        ]
    } else if command == send_command() {
        seq![destination_name(), transaction_name(), content_length_name()]
    } else if command == subscribe_command() {
        seq![destination_name(), id_name(), ack_name(), content_length_name()]
    } else if command == unsubscribe_command() {
        seq![id_name(), content_length_name()]
    } else if command == ack_command() || command == nack_command() {
        seq![id_name(), transaction_name(), content_length_name()]
    } else if command == begin_command() || command == commit_command() || command
        == abort_command() {
        seq![transaction_name(), content_length_name()]
    } else if command == disconnect_command() {
        seq![receipt_name(), content_length_name()]
    } else {
        Seq::empty()
    }
}

/// The typed content of a frame from a client; none when the command is not
/// one that a client sends or a header that the command requires is absent.
pub open spec fn to_server_content(f: FrameView) -> Option<ToServerView> {
    let h = f.headers;
    let c = f.command;
    if c == connect_command() {
        match (header_text(h, accept_version_name()), header_text(h, host_name())) {
            (Some(accept_version), Some(host)) => Some(
                ToServerView::Connect {
                    accept_version,
                    host,
                    login: header_text(h, login_name()),
                    passcode: header_text(h, passcode_name()),
                    heartbeat: header_heartbeat(h),
                },
            ),
            _ => None,
        }
    } else if c == send_command() {
        match header_text(h, destination_name()) {
            Some(destination) => Some(
                ToServerView::Send {
                    destination,
                    transaction: header_text(h, transaction_name()),
                    body: f.body,
                },
            ),
            None => None,
        }
    } else if c == subscribe_command() {
        match (header_text(h, destination_name()), header_text(h, id_name())) {
            (Some(destination), Some(id)) => Some(
                ToServerView::Subscribe { destination, id, ack: header_ack(h) },
            ),
            _ => None,
        }
    } else if c == unsubscribe_command() {
        match header_text(h, id_name()) {
            Some(id) => Some(ToServerView::Unsubscribe { id }),
            None => None,
        }
    } else if c == ack_command() {
        match header_text(h, id_name()) {
            Some(id) => Some(
                ToServerView::Ack { id, transaction: header_text(h, transaction_name()) },
            ),
            None => None,
        }
    } else if c == nack_command() {
        match header_text(h, id_name()) {
            Some(id) => Some(
                ToServerView::Nack { id, transaction: header_text(h, transaction_name()) },
            ),
            None => None,
        }
    } else if c == begin_command() {
        match header_text(h, transaction_name()) {
            Some(transaction) => Some(ToServerView::Begin { transaction }),
            None => None,
        }
    } else if c == commit_command() {
        match header_text(h, transaction_name()) {
            Some(transaction) => Some(ToServerView::Commit { transaction }),
            None => None,
        }
    } else if c == abort_command() {
        match header_text(h, transaction_name()) {
            Some(transaction) => Some(ToServerView::Abort { transaction }),
            None => None,
        }
    } else if c == disconnect_command() {
        Some(ToServerView::Disconnect { receipt: header_text(h, receipt_name()) })
    } else {
        None
    }
}

/// The message that a frame from a client stands for. Each typed field is
/// taken from the first header of its name; the headers of other names
/// are kept, in order, as the extra headers.
pub open spec fn to_server_message(f: FrameView) -> Result<MessageView<ToServerView>, ClientError> {
    match to_server_content(f) {
        Some(content) => Ok(
            MessageView { content, extra_headers: without_names(f.headers, to_server_keys(f.command)) },
        ),
        None => Err(ClientError::UnknownOrInvalidMessage),
    }
}

// ---------------------------------------------------------------------------
// Messages from the server: from a frame
// ---------------------------------------------------------------------------

/// The header names that the type of a message from the server models,
/// by command.
pub open spec fn from_server_keys(command: Seq<u8>) -> Seq<Seq<u8>> {
    if command == connected_command() {
        seq![
            version_name(),
            session_name(),
            server_name(),
            heart_beat_name(),
            content_length_name(),
        ]
    } else if command == message_command() {
        seq![destination_name(), message_id_name(), subscription_name(), content_length_name()]
    } else if command == receipt_command() {
        seq![receipt_id_name(), content_length_name()]
    } else if command == error_command() {
        seq![message_name(), content_length_name()]
    } else {
        Seq::empty()
    }
}

/// The typed content of a frame from the server; none when the command is
/// not one that a server sends or a header that the command requires is
/// absent.
pub open spec fn from_server_content(f: FrameView) -> Option<FromServerView> {
    let h = f.headers;
    let c = f.command;
    if c == connected_command() {
        match header_text(h, version_name()) {
            Some(version) => Some(
                FromServerView::Connected {
                    version,
                    session: header_text(h, session_name()),
                    server: header_text(h, server_name()),
                    heartbeat: header_text(h, heart_beat_name()),
                },
            ),
            None => None,
        }
    } else if c == message_command() {
        match (
            header_text(h, destination_name()),
            header_text(h, message_id_name()),
            header_text(h, subscription_name()),
        ) {
            (Some(destination), Some(message_id), Some(subscription)) => Some(
                FromServerView::Message { destination, message_id, subscription, body: f.body },
            ),
            _ => None,
        }
    } else if c == receipt_command() {
        match header_text(h, receipt_id_name()) {
            Some(receipt_id) => Some(FromServerView::Receipt { receipt_id }),
            None => None,
        }
    } else if c == error_command() {
        Some(FromServerView::Error { message: header_text(h, message_name()), body: f.body })
    } else {
        None
    }
}

/// The message that a frame from the server stands for. Each typed field
/// is taken from the first header of its name; the headers of other names
/// are kept, in order, as the extra headers.
pub open spec fn from_server_message(f: FrameView) -> Result<
    MessageView<FromServerView>,
    ClientError,
> {
    match from_server_content(f) {
        Some(content) => Ok(
            MessageView {
                content,
                extra_headers: without_names(f.headers, from_server_keys(f.command)),
            },
        ),
        None => Err(ClientError::UnknownOrInvalidMessage),
    }
}

// ---------------------------------------------------------------------------
// Executable helpers
// ---------------------------------------------------------------------------

/// `String::from_utf8`: the string made of `bytes`, when they are UTF-8.
/// Trusted: the call succeeds exactly on valid UTF-8, and the string it
/// gives consists of the very bytes it was given.
#[verifier::external_body]
pub(crate) fn string_from_utf8(bytes: Vec<u8>) -> (r: Option<String>)
    ensures
        r is Some <==> valid_utf8(bytes@),
        r matches Some(s) ==> encode_utf8(s@) == bytes@,
{
    match String::from_utf8(bytes) {
        Ok(s) => Some(s),
        Err(_) => None,
    }
}

/// The UTF-8 bytes of a string.
pub fn text_bytes(s: &String) -> (v: Vec<u8>)
    ensures
        v@ == encode_utf8(s@),
{
    slice_to_vec(s.as_str().as_bytes())
}

/// The UTF-8 bytes of an optional string.
pub fn opt_text_bytes(s: &Option<String>) -> (v: Option<Vec<u8>>)
    ensures
        bytes_view(v) == opt_text(text_view(*s)),
{
    match s {
        Some(t) => Some(text_bytes(t)),
        None => None,
    }
}

/// The value of a `heart-beat` header.
pub fn heartbeat_bytes(hb: &Option<(u32, u32)>) -> (v: Option<Vec<u8>>)
    ensures
        bytes_view(v) == opt_heartbeat_text(*hb),
{
    match hb {
        Some(pair) => {
            let mut out: Vec<u8> = Vec::new();
            push_decimal(&mut out, pair.0 as u64);
            out.push(COMMA);
            push_decimal(&mut out, pair.1 as u64);
            assert(out@ =~= heartbeat_text(*pair));
            Some(out)
        },
        None => None,
    }
}

/// The value of an `ack` header.
pub fn ack_bytes(mode: &Option<AckMode>) -> (v: Option<Vec<u8>>)
    ensures
        bytes_view(v) == opt_ack_text(*mode),
{
    match mode {
        Some(AckMode::Auto) => Some(auto_text_bytes()),
        Some(AckMode::Client) => Some(client_text_bytes()),
        Some(AckMode::ClientIndividual) => Some(client_individual_text_bytes()),
        None => None,
    }
}

/// The value of a `content-length` header for a body.
pub fn length_bytes(body: &Option<Vec<u8>>) -> (v: Option<Vec<u8>>)
    ensures
        bytes_view(v) == length_text(bytes_view(*body)),
{
    match body {
        Some(b) => {
            let mut out: Vec<u8> = Vec::new();
            push_decimal(&mut out, b.len() as u64);
            assert(out@ =~= decimal_digits(b@.len()));
            Some(out)
        },
        None => None,
    }
}

/// An owned copy of an optional byte string.
pub fn copy_body(body: &Option<Vec<u8>>) -> (v: Option<Vec<u8>>)
    ensures
        bytes_view(v) == bytes_view(*body),
{
    match body {
        Some(b) => Some(copy_bytes(b.as_slice())),
        None => None,
    }
}

/// The headers written for some slots.
pub fn present_headers(slots: &Vec<SlotBytes>) -> (hs: Vec<Header>)
    ensures
        headers_view(hs@) == present(slots_view(slots@)),
{
    let ghost all = slots_view(slots@);
    let mut hs: Vec<Header> = Vec::new();
    let mut i: usize = 0;
    assert(all.skip(0) =~= all);
    assert(headers_view(hs@) + present(all) =~= present(all));
    while i < slots.len()
        invariant
            0 <= i <= slots@.len(),
            all == slots_view(slots@),
            headers_view(hs@) + present(all.skip(i as int)) == present(all),
        decreases slots@.len() - i,
    {
        let ghost before = headers_view(hs@);
        let ghost rest = all.skip(i as int);
        assert(rest.skip(1) =~= all.skip(i + 1));
        assert(rest[0] == all[i as int]);
        match &slots[i].1 {
            Some(value) => {
                let name = copy_bytes(slots[i].0.as_slice());
                let value = copy_bytes(value.as_slice());
                let ghost h = (name@, value@);
                hs.push((name, value));
                assert(headers_view(hs@) =~= before.push(h));
                assert(before.push(h) + present(all.skip(i + 1)) =~= before + (seq![h] + present(
                    all.skip(i + 1),
                )));
            },
            None => {},
        }
        i += 1;
    }
    assert(headers_view(hs@) + present(all.skip(i as int)) =~= headers_view(hs@));
    hs
}

/// Appends copies of `more` to `hs`.
pub fn append_headers(hs: &mut Vec<Header>, more: &Vec<Header>)
    ensures
        headers_view(final(hs)@) == headers_view(old(hs)@) + headers_view(more@),
{
    let mut i: usize = 0;
    assert(headers_view(hs@) + headers_view(more@).take(0) =~= headers_view(hs@));
    while i < more.len()
        invariant
            0 <= i <= more@.len(),
            headers_view(hs@) == headers_view(old(hs)@) + headers_view(more@).take(i as int),
        decreases more@.len() - i,
    {
        let ghost before = headers_view(hs@);
        let name = copy_bytes(more[i].0.as_slice());
        let value = copy_bytes(more[i].1.as_slice());
        let ghost h = (name@, value@);
        hs.push((name, value));
        assert(headers_view(hs@) =~= before.push(h));
        assert(headers_view(more@).take(i + 1) =~= headers_view(more@).take(i as int).push(h));
        assert(headers_view(hs@) =~= headers_view(old(hs)@) + headers_view(more@).take(i + 1));
        i += 1;
    }
    assert(headers_view(more@).take(i as int) =~= headers_view(more@));
}

/// Whether `name` is one of `keys`.
pub fn contains_name(keys: &Vec<Vec<u8>>, name: &[u8]) -> (r: bool)
    ensures
        r == names_view(keys@).contains(name@),
{
    let ghost ks = names_view(keys@);
    let mut i: usize = 0;
    while i < keys.len()
        invariant
            0 <= i <= keys@.len(),
            ks == names_view(keys@),
            forall|j: int| 0 <= j < i ==> ks[j] != name@,
        decreases keys@.len() - i,
    {
        if bytes_eq(keys[i].as_slice(), name) {
            assert(ks[i as int] == name@);
            return true;
        }
        i += 1;
    }
    false
}

/// Copies of the headers of `hs` whose name is none of `keys`.
pub fn remaining_headers(hs: &Vec<Header>, keys: &Vec<Vec<u8>>) -> (r: Vec<Header>)
    ensures
        headers_view(r@) == without_names(headers_view(hs@), names_view(keys@)),
{
    let ghost all = headers_view(hs@);
    let ghost ks = names_view(keys@);
    let mut out: Vec<Header> = Vec::new();
    let mut i: usize = 0;
    assert(all.skip(0) =~= all);
    assert(headers_view(out@) + without_names(all, ks) =~= without_names(all, ks));
    while i < hs.len()
        invariant
            0 <= i <= hs@.len(),
            all == headers_view(hs@),
            ks == names_view(keys@),
            headers_view(out@) + without_names(all.skip(i as int), ks) == without_names(all, ks),
        decreases hs@.len() - i,
    {
        let ghost before = headers_view(out@);
        let ghost rest = all.skip(i as int);
        assert(rest.skip(1) =~= all.skip(i + 1));
        assert(rest[0] == all[i as int]);
        if !contains_name(keys, hs[i].0.as_slice()) {
            let name = copy_bytes(hs[i].0.as_slice());
            let value = copy_bytes(hs[i].1.as_slice());
            let ghost h = (name@, value@);
            out.push((name, value));
            assert(headers_view(out@) =~= before.push(h));
            assert(before.push(h) + without_names(all.skip(i + 1), ks) =~= before + (seq![h]
                + without_names(all.skip(i + 1), ks)));
        }
        i += 1;
    }
    assert(headers_view(out@) + without_names(all.skip(i as int), ks) =~= headers_view(out@));
    out
}

/// The text of the first header called `name`.
pub fn fetch_text(hs: &Vec<Header>, name: &[u8]) -> (r: Option<String>)
    ensures
        text_view(r) == header_text(headers_view(hs@), name@),
{
    match lookup_header(hs, name) {
        Some(v) => {
            let r = string_from_utf8(copy_bytes(v.as_slice()));
            proof {
                if r is Some {
                    encode_utf8_decode_utf8(r->0@);
                }
            }
            r
        },
        None => None,
    }
}

/// Reads a `heart-beat` value.
pub fn read_heartbeat(v: &[u8]) -> (r: Option<(u32, u32)>)
    ensures
        r == heartbeat_of(v@),
{
    proof {
        lemma_first_index(v@, COMMA);
    }
    match find_byte(v, COMMA) {
        None => None,
        Some(c) => {
            let len: usize = v.len();
            let left = slice_subrange(v, 0, c);
            let right = slice_subrange(v, c + 1, len);
            assert(left@ =~= v@.take(c as int));
            assert(right@ =~= v@.skip(c + 1));
            match parse_decimal(left, u32::MAX as u64) {
                None => None,
                Some(a) => match parse_decimal(right, u32::MAX as u64) {
                    None => None,
                    Some(b) => Some((a as u32, b as u32)),
                },
            }
        },
    }
}

/// The numbers of the first `heart-beat` header.
pub fn fetch_heartbeat(hs: &Vec<Header>) -> (r: Option<(u32, u32)>)
    ensures
        r == header_heartbeat(headers_view(hs@)),
{
    let name = heart_beat_name_bytes();
    match lookup_header(hs, name.as_slice()) {
        Some(v) => read_heartbeat(v.as_slice()),
        None => None,
    }
}

/// The mode of the first `ack` header.
pub fn fetch_ack(hs: &Vec<Header>) -> (r: Option<AckMode>)
    ensures
        r == header_ack(headers_view(hs@)),
{
    let name = ack_name_bytes();
    match lookup_header(hs, name.as_slice()) {
        Some(v) => {
            if bytes_eq(v.as_slice(), auto_text_bytes().as_slice()) {
                Some(AckMode::Auto)
            } else if bytes_eq(v.as_slice(), client_text_bytes().as_slice()) {
                Some(AckMode::Client)
            } else if bytes_eq(v.as_slice(), client_individual_text_bytes().as_slice()) {
                Some(AckMode::ClientIndividual)
            } else {
                None
            }
        },
        None => None,
    }
}

} // verus!

//! The executable mapping between typed messages and frames.

use vstd::prelude::*;
use crate::error::ClientError;
use crate::frame::{bytes_view, content_length, headers_view, Frame, Header};
use crate::message::{
    ack_bytes, append_headers, copy_body, fetch_ack, fetch_heartbeat, fetch_text,
    from_server_keys, from_server_message, heartbeat_bytes, length_bytes, names_view,
    opt_text_bytes, present_headers, remaining_headers, slots_view, text_bytes,
    to_server_frame, to_server_keys, to_server_message, without_names, FromServer,
    FromServerView, Message, MessageView, SlotBytes, ToServer, ToServerView,
};
use crate::names::{
    abort_command_bytes, accept_version_name_bytes, ack_command_bytes, ack_name_bytes,
    begin_command_bytes, commit_command_bytes, connect_command_bytes, connected_command_bytes,
    destination_name_bytes, disconnect_command_bytes, error_command_bytes,
    heart_beat_name_bytes, host_name_bytes, id_name_bytes, login_name_bytes,
    message_command_bytes, message_id_name_bytes, message_name_bytes, nack_command_bytes,
    passcode_name_bytes, receipt_command_bytes, receipt_id_name_bytes, receipt_name_bytes,
    send_command_bytes, server_name_bytes, session_name_bytes, subscribe_command_bytes,
    subscription_name_bytes, transaction_name_bytes, unsubscribe_command_bytes,
    version_name_bytes,
};
use crate::text::bytes_eq;

verus! {

impl ToServer {
    /// The command of the frame that stands for the message.
    pub fn command_bytes(&self) -> (v: Vec<u8>)
        ensures
            v@ == self@.command(),
    {
        match self {
            ToServer::Connect { .. } => connect_command_bytes(),
            ToServer::Send { .. } => send_command_bytes(),
            ToServer::Subscribe { .. } => subscribe_command_bytes(),
            ToServer::Unsubscribe { .. } => unsubscribe_command_bytes(),
            ToServer::Ack { .. } => ack_command_bytes(),
            ToServer::Nack { .. } => nack_command_bytes(),
            ToServer::Begin { .. } => begin_command_bytes(),
            ToServer::Commit { .. } => commit_command_bytes(),
            ToServer::Abort { .. } => abort_command_bytes(),
            ToServer::Disconnect { .. } => disconnect_command_bytes(),
        }
    }

    /// The headers that the message's type models, each with its value if
    /// the message carries one.
    pub fn slot_values(&self) -> (v: Vec<SlotBytes>)
        ensures
            slots_view(v@) == self@.slots(),
    {
        let v: Vec<SlotBytes> = match self {
            ToServer::Connect { accept_version, host, login, passcode, heartbeat } => vec![
                (accept_version_name_bytes(), Some(text_bytes(accept_version))),
                (host_name_bytes(), Some(text_bytes(host))),
                (login_name_bytes(), opt_text_bytes(login)),
                (passcode_name_bytes(), opt_text_bytes(passcode)),
                (heart_beat_name_bytes(), heartbeat_bytes(heartbeat)),
                (content_length(), None),
            ],
            ToServer::Send { destination, transaction, body } => vec![
                (destination_name_bytes(), Some(text_bytes(destination))),
                (transaction_name_bytes(), opt_text_bytes(transaction)),
                (content_length(), length_bytes(body)),
            ],
            ToServer::Subscribe { destination, id, ack } => vec![
                (destination_name_bytes(), Some(text_bytes(destination))),
                (id_name_bytes(), Some(text_bytes(id))),
                (ack_name_bytes(), ack_bytes(ack)),
                (content_length(), None),
            ],
            ToServer::Unsubscribe { id } => vec![
                (id_name_bytes(), Some(text_bytes(id))),
                (content_length(), None),
            ],
            ToServer::Ack { id, transaction } => vec![
                (id_name_bytes(), Some(text_bytes(id))),
                (transaction_name_bytes(), opt_text_bytes(transaction)),
                (content_length(), None),
            ],
            ToServer::Nack { id, transaction } => vec![
                (id_name_bytes(), Some(text_bytes(id))),
                (transaction_name_bytes(), opt_text_bytes(transaction)),
                (content_length(), None),
            ],
            ToServer::Begin { transaction } => vec![
                (transaction_name_bytes(), Some(text_bytes(transaction))),
                (content_length(), None),
            ],
            ToServer::Commit { transaction } => vec![
                (transaction_name_bytes(), Some(text_bytes(transaction))),
                (content_length(), None),
            ],
            ToServer::Abort { transaction } => vec![
                (transaction_name_bytes(), Some(text_bytes(transaction))),
                (content_length(), None),
            ],
            ToServer::Disconnect { receipt } => vec![
                (receipt_name_bytes(), opt_text_bytes(receipt)),
                (content_length(), None),
            ],
        };
        assert(slots_view(v@) =~= self@.slots());
        v
    }

    /// A copy of the body of the frame that stands for the message.
    pub fn body_copy(&self) -> (v: Option<Vec<u8>>)
        ensures
            bytes_view(v) == self@.body(),
    {
        match self {
            ToServer::Send { body, .. } => copy_body(body),
            _ => None,
        }
    }
}

/// A message made of `content` and the headers of `headers` that are none
/// of `keys`.
fn assemble<T: View>(content: T, headers: &Vec<Header>, keys: &Vec<Vec<u8>>) -> (m: Message<T>)
    ensures
        m.content == content,
        headers_view(m.extra_headers@) == without_names(headers_view(headers@), names_view(keys@)),
{
    Message { content, extra_headers: remaining_headers(headers, keys) }
}

impl Message<ToServer> {
    /// The frame that stands for the message.
    pub fn to_frame(&self) -> (f: Frame)
        ensures
            f@ == to_server_frame(self@),
    {
        let slots = self.content.slot_values();
        let mut headers = present_headers(&slots);
        append_headers(&mut headers, &self.extra_headers);
        Frame { command: self.content.command_bytes(), headers, body: self.content.body_copy() }
    }

    /// The message that a frame from a client stands for.
    ///
    /// Fails with `UnknownOrInvalidMessage` exactly when the command is not
    /// one that a client sends, or a header that the command requires is
    /// absent or not UTF-8.
    pub fn from_frame(frame: Frame) -> (r: Result<Message<ToServer>, ClientError>)
        ensures
            match r {
                Ok(m) => to_server_message(frame@) == Ok::<MessageView<ToServerView>, ClientError>(
                    m@,
                ),
                Err(e) => to_server_message(frame@) == Err::<
                    MessageView<ToServerView>,
                    ClientError,
                >(e),
            },
    {
        let Frame { command, headers, body } = frame;
        let c = command.as_slice();
        let invalid = Err(ClientError::UnknownOrInvalidMessage);
        if bytes_eq(c, connect_command_bytes().as_slice()) {
            let accept_version = fetch_text(&headers, accept_version_name_bytes().as_slice());
            let host = fetch_text(&headers, host_name_bytes().as_slice());
            match (accept_version, host) {
                (Some(accept_version), Some(host)) => {
                    let login = fetch_text(&headers, login_name_bytes().as_slice());
                    let passcode = fetch_text(&headers, passcode_name_bytes().as_slice());
                    let heartbeat = fetch_heartbeat(&headers);
                    let keys: Vec<Vec<u8>> = vec![
                        accept_version_name_bytes(),
                        host_name_bytes(),
                        login_name_bytes(),
                        passcode_name_bytes(),
                        heart_beat_name_bytes(),
                        content_length(),
                    ];
                    assert(names_view(keys@) =~= to_server_keys(command@));
                    Ok(
                        assemble(
                            ToServer::Connect { accept_version, host, login, passcode, heartbeat },
                            &headers,
                            &keys,
                        ),
                    )
                },
                _ => invalid,
            }
        } else if bytes_eq(c, send_command_bytes().as_slice()) {
            match fetch_text(&headers, destination_name_bytes().as_slice()) {
                Some(destination) => {
                    let transaction = fetch_text(&headers, transaction_name_bytes().as_slice());
                    let keys: Vec<Vec<u8>> = vec![
                        destination_name_bytes(),
                        transaction_name_bytes(),
                        content_length(),
                    ];
                    assert(names_view(keys@) =~= to_server_keys(command@));
                    Ok(assemble(ToServer::Send { destination, transaction, body }, &headers, &keys))
                },
                None => invalid,
            }
        } else if bytes_eq(c, subscribe_command_bytes().as_slice()) {
            let destination = fetch_text(&headers, destination_name_bytes().as_slice());
            let id = fetch_text(&headers, id_name_bytes().as_slice());
            match (destination, id) {
                (Some(destination), Some(id)) => {
                    let ack = fetch_ack(&headers);
                    let keys: Vec<Vec<u8>> = vec![
                        destination_name_bytes(),
                        id_name_bytes(),
                        ack_name_bytes(),
                        content_length(),
                    ];
                    assert(names_view(keys@) =~= to_server_keys(command@));
                    Ok(assemble(ToServer::Subscribe { destination, id, ack }, &headers, &keys))
                },
                _ => invalid,
            }
        } else if bytes_eq(c, unsubscribe_command_bytes().as_slice()) {
            match fetch_text(&headers, id_name_bytes().as_slice()) {
                Some(id) => {
                    let keys: Vec<Vec<u8>> = vec![id_name_bytes(), content_length()];
                    assert(names_view(keys@) =~= to_server_keys(command@));
                    Ok(assemble(ToServer::Unsubscribe { id }, &headers, &keys))
                },
                None => invalid,
            }
        } else if bytes_eq(c, ack_command_bytes().as_slice()) {
            match fetch_text(&headers, id_name_bytes().as_slice()) {
                Some(id) => {
                    let transaction = fetch_text(&headers, transaction_name_bytes().as_slice());
                    let keys: Vec<Vec<u8>> = vec![
                        id_name_bytes(),
                        transaction_name_bytes(),
                        content_length(),
                    ];
                    assert(names_view(keys@) =~= to_server_keys(command@));
                    Ok(assemble(ToServer::Ack { id, transaction }, &headers, &keys))
                },
                None => invalid,
            }
        } else if bytes_eq(c, nack_command_bytes().as_slice()) {
            match fetch_text(&headers, id_name_bytes().as_slice()) {
                Some(id) => {
                    let transaction = fetch_text(&headers, transaction_name_bytes().as_slice());
                    let keys: Vec<Vec<u8>> = vec![
                        id_name_bytes(),
                        transaction_name_bytes(),
                        content_length(),
                    ];
                    assert(names_view(keys@) =~= to_server_keys(command@));
                    Ok(assemble(ToServer::Nack { id, transaction }, &headers, &keys))
                },
                None => invalid,
            }
        } else if bytes_eq(c, begin_command_bytes().as_slice()) {
            match fetch_text(&headers, transaction_name_bytes().as_slice()) {
                Some(transaction) => {
                    let keys: Vec<Vec<u8>> = vec![transaction_name_bytes(), content_length()];
                    assert(names_view(keys@) =~= to_server_keys(command@));
                    Ok(assemble(ToServer::Begin { transaction }, &headers, &keys))
                },
                None => invalid,
            }
        } else if bytes_eq(c, commit_command_bytes().as_slice()) {
            match fetch_text(&headers, transaction_name_bytes().as_slice()) {
                Some(transaction) => {
                    let keys: Vec<Vec<u8>> = vec![transaction_name_bytes(), content_length()];
                    assert(names_view(keys@) =~= to_server_keys(command@));
                    Ok(assemble(ToServer::Commit { transaction }, &headers, &keys))
                },
                None => invalid,
            }
        } else if bytes_eq(c, abort_command_bytes().as_slice()) {
            match fetch_text(&headers, transaction_name_bytes().as_slice()) {
                Some(transaction) => {
                    let keys: Vec<Vec<u8>> = vec![transaction_name_bytes(), content_length()];
                    assert(names_view(keys@) =~= to_server_keys(command@));
                    Ok(assemble(ToServer::Abort { transaction }, &headers, &keys))
                },
                None => invalid,
            }
        } else if bytes_eq(c, disconnect_command_bytes().as_slice()) {
            let receipt = fetch_text(&headers, receipt_name_bytes().as_slice());
            let keys: Vec<Vec<u8>> = vec![receipt_name_bytes(), content_length()];
            assert(names_view(keys@) =~= to_server_keys(command@));
            Ok(assemble(ToServer::Disconnect { receipt }, &headers, &keys))
        } else {
            invalid
        }
    }
}

impl Message<FromServer> {
    /// The message that a frame from the server stands for.
    ///
    /// Fails with `UnknownOrInvalidMessage` exactly when the command is not
    /// one that a server sends, or a header that the command requires is
    /// absent or not UTF-8.
    pub fn from_frame(frame: Frame) -> (r: Result<Message<FromServer>, ClientError>)
        ensures
            match r {
                Ok(m) => from_server_message(frame@) == Ok::<
                    MessageView<FromServerView>,
                    ClientError,
                >(m@),
                Err(e) => from_server_message(frame@) == Err::<
                    MessageView<FromServerView>,
                    ClientError,
                >(e),
            },
    {
        let Frame { command, headers, body } = frame;
        let c = command.as_slice();
        let invalid = Err(ClientError::UnknownOrInvalidMessage);
        if bytes_eq(c, connected_command_bytes().as_slice()) {
            match fetch_text(&headers, version_name_bytes().as_slice()) {
                Some(version) => {
                    let session = fetch_text(&headers, session_name_bytes().as_slice());
                    let server = fetch_text(&headers, server_name_bytes().as_slice());
                    let heartbeat = fetch_text(&headers, heart_beat_name_bytes().as_slice());
                    let keys: Vec<Vec<u8>> = vec![
                        version_name_bytes(),
                        session_name_bytes(),
                        server_name_bytes(),
                        heart_beat_name_bytes(),
                        content_length(),
                    ];
                    assert(names_view(keys@) =~= from_server_keys(command@));
                    Ok(
                        assemble(
                            FromServer::Connected { version, session, server, heartbeat },
                            &headers,
                            &keys,
                        ),
                    )
                },
                None => invalid,
            }
        } else if bytes_eq(c, message_command_bytes().as_slice()) {
            let destination = fetch_text(&headers, destination_name_bytes().as_slice());
            let message_id = fetch_text(&headers, message_id_name_bytes().as_slice());
            let subscription = fetch_text(&headers, subscription_name_bytes().as_slice());
            match (destination, message_id, subscription) {
                (Some(destination), Some(message_id), Some(subscription)) => {
                    let keys: Vec<Vec<u8>> = vec![
                        destination_name_bytes(),
                        message_id_name_bytes(),
                        subscription_name_bytes(),
                        content_length(),
                    ];
                    assert(names_view(keys@) =~= from_server_keys(command@));
                    Ok(
                        assemble(
                            FromServer::Message { destination, message_id, subscription, body },
                            &headers,
                            &keys,
                        ),
                    )
                },
                _ => invalid,
            }
        } else if bytes_eq(c, receipt_command_bytes().as_slice()) {
            match fetch_text(&headers, receipt_id_name_bytes().as_slice()) {
                Some(receipt_id) => {
                    let keys: Vec<Vec<u8>> = vec![receipt_id_name_bytes(), content_length()];
                    assert(names_view(keys@) =~= from_server_keys(command@));
                    Ok(assemble(FromServer::Receipt { receipt_id }, &headers, &keys))
                },
                None => invalid,
            }
        } else if bytes_eq(c, error_command_bytes().as_slice()) {
            let message = fetch_text(&headers, message_name_bytes().as_slice());
            let keys: Vec<Vec<u8>> = vec![message_name_bytes(), content_length()];
            assert(names_view(keys@) =~= from_server_keys(command@));
            Ok(assemble(FromServer::Error { message, body }, &headers, &keys))
        } else {
            invalid
        }
    }
}

} // verus!

use bytes::BytesMut;
use stomp_client::{
    client_handshake, connect_request, parse_frame, ClientCodec, ClientError, FromServer,
    HandshakeState, Message, ParseOutcome, ToServer,
};

/// A server at the far end of an in-memory connection: it reads what the
/// client has written and, on a connection request for the host it
/// serves, writes its fixed reply.
struct Transport {
    codec: ClientCodec,
    to_server: BytesMut,
    to_client: BytesMut,
    host: &'static str,
    reply: &'static [u8],
    seen: Vec<Message<ToServer>>,
}

impl Transport {
    fn new(host: &'static str, reply: &'static [u8]) -> Transport {
        Transport {
            codec: ClientCodec,
            to_server: BytesMut::new(),
            to_client: BytesMut::new(),
            host,
            reply,
            seen: Vec::new(),
        }
    }

    fn send(&mut self, m: Message<ToServer>) -> Result<(), ClientError> {
        self.codec.encode(m, &mut self.to_server)?;
        while let ParseOutcome::Complete { frame, consumed } = parse_frame(&self.to_server) {
            let _ = self.to_server.split_to(consumed);
            let request = Message::<ToServer>::from_frame(frame)?;
            if let ToServer::Connect { host, .. } = &request.content {
                if host == self.host {
                    self.to_client.extend_from_slice(self.reply);
                }
            }
            self.seen.push(request);
        }
        Ok(())
    }

    fn next(&mut self) -> Result<Option<Message<FromServer>>, ClientError> {
        self.codec.decode(&mut self.to_client)
    }
}

/// The handshake as the caller of the library runs it: send the request,
/// take one reply, let the library decide.
fn handshake(
    transport: &mut Transport,
    address: &str,
    login: Option<String>,
    passcode: Option<String>,
) -> Result<(HandshakeState, Option<Message<FromServer>>), ClientError> {
    transport.send(connect_request(address, login, passcode))?;
    let reply = transport.next()?;
    let state = client_handshake(HandshakeState::AwaitingConnected, reply.as_ref())?;
    Ok((state, reply))
}

#[test]
fn handshake_succeeds_on_connected() {
    let mut transport = Transport::new("example.com", b"CONNECTED\nversion:1.2\n\n\x00");
    let (state, reply) = handshake(&mut transport, "example.com", None, None).unwrap();
    assert_eq!(state, HandshakeState::Connected);
    assert_eq!(
        reply,
        Some(Message {
            content: FromServer::Connected {
                version: "1.2".to_string(),
                session: None,
                server: None,
                heartbeat: None,
            },
            extra_headers: vec![],
        })
    );
    assert!(matches!(reply.unwrap().content, FromServer::Connected { .. }));
}

#[test]
fn handshake_sends_one_connect_frame() {
    let mut transport = Transport::new("example.com", b"CONNECTED\nversion:1.2\n\n\x00");
    handshake(&mut transport, "example.com", Some("guest".to_string()), Some("pw".to_string()))
        .unwrap();
    assert_eq!(
        transport.seen,
        vec![Message {
            content: ToServer::Connect {
                accept_version: "1.2".to_string(),
                host: "example.com".to_string(),
                login: Some("guest".to_string()),
                passcode: Some("pw".to_string()),
                heartbeat: None,
            },
            extra_headers: vec![],
        }]
    );
    assert!(transport.to_server.is_empty());
    assert!(transport.to_client.is_empty());
}

#[test]
fn connect_request_on_the_wire() {
    let mut dst = BytesMut::new();
    let request = connect_request("example.com", Some("guest".to_string()), None);
    ClientCodec.encode(request, &mut dst).unwrap();
    assert_eq!(&dst[..], &b"CONNECT\naccept-version:1.2\nhost:example.com\nlogin:guest\n\n\x00"[..]);
}

#[test]
fn handshake_is_rejected_on_error() {
    let mut transport = Transport::new("example.com", b"ERROR\nmessage:bad login\n\n\x00");
    assert_eq!(
        handshake(&mut transport, "example.com", None, None),
        Err(ClientError::HandshakeRejected)
    );
}

#[test]
fn handshake_is_rejected_on_any_other_reply() {
    let mut transport = Transport::new("example.com", b"RECEIPT\nreceipt-id:1\n\n\x00");
    assert_eq!(
        handshake(&mut transport, "example.com", None, None),
        Err(ClientError::HandshakeRejected)
    );
    let mut transport = Transport::new(
        "example.com",
        b"MESSAGE\ndestination:/q\nmessage-id:1\nsubscription:0\n\nhi\x00",
    );
    assert_eq!(
        handshake(&mut transport, "example.com", None, None),
        Err(ClientError::HandshakeRejected)
    );
}

#[test]
fn handshake_is_rejected_when_no_reply_arrives() {
    let mut transport = Transport::new("other.example", b"CONNECTED\nversion:1.2\n\n\x00");
    assert_eq!(
        handshake(&mut transport, "example.com", None, None),
        Err(ClientError::HandshakeRejected)
    );
    assert_eq!(
        client_handshake(HandshakeState::AwaitingConnected, None),
        Err(ClientError::HandshakeRejected)
    );
}

#[test]
fn handshake_passes_on_what_the_codec_reports() {
    let mut transport = Transport::new("example.com", b"CONNECTED\nversion\n\n\x00");
    assert_eq!(
        handshake(&mut transport, "example.com", None, None),
        Err(ClientError::MalformedFrame)
    );
    let mut transport = Transport::new("example.com", b"CONNECTED\n\n\x00");
    assert_eq!(
        handshake(&mut transport, "example.com", None, None),
        Err(ClientError::UnknownOrInvalidMessage)
    );
}

#[test]
fn an_open_connection_stays_open() {
    let error = Message {
        content: FromServer::Error { message: None, body: None },
        extra_headers: vec![],
    };
    assert_eq!(
        client_handshake(HandshakeState::Connected, Some(&error)),
        Ok(HandshakeState::Connected)
    );
    assert_eq!(client_handshake(HandshakeState::Connected, None), Ok(HandshakeState::Connected));
}

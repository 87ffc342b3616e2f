use stomp_client::{
    parse_frame, AckMode, ClientError, Frame, FromServer, Message, ParseOutcome, ToServer,
};

fn header(name: &str, value: &str) -> (Vec<u8>, Vec<u8>) {
    (name.as_bytes().to_vec(), value.as_bytes().to_vec())
}

fn frame(command: &str, headers: &[(&str, &str)], body: Option<&[u8]>) -> Frame {
    Frame {
        command: command.as_bytes().to_vec(),
        headers: headers.iter().map(|(n, v)| header(n, v)).collect(),
        body: body.map(|b| b.to_vec()),
    }
}

fn plain(content: ToServer) -> Message<ToServer> {
    Message { content, extra_headers: vec![] }
}

fn text(s: &str) -> String {
    s.to_string()
}

fn all_kinds() -> Vec<Message<ToServer>> {
    vec![
        plain(ToServer::Connect {
            accept_version: text("1.2"),
            host: text("example.com"),
            login: Some(text("guest")),
            passcode: Some(text("s3cr:et\n")),
            heartbeat: Some((0, 4294967295)),
        }),
        plain(ToServer::Connect {
            accept_version: text("1.1,1.2"),
            host: text(""),
            login: None,
            passcode: None,
            heartbeat: None,
        }),
        plain(ToServer::Send {
            destination: text("/queue/a"),
            transaction: Some(text("tx1")),
            body: Some(b"hello\x00world\n".to_vec()),
        }),
        plain(ToServer::Send { destination: text("/queue/a"), transaction: None, body: None }),
        plain(ToServer::Send {
            destination: text("/queue/a"),
            transaction: None,
            body: Some(vec![]),
        }),
        plain(ToServer::Subscribe {
            destination: text("/topic/\u{e9}t\u{e9}"),
            id: text("0"),
            ack: Some(AckMode::ClientIndividual),
        }),
        plain(ToServer::Subscribe { destination: text("/t"), id: text("1"), ack: None }),
        plain(ToServer::Subscribe {
            destination: text("/t"),
            id: text("2"),
            ack: Some(AckMode::Auto),
        }),
        plain(ToServer::Subscribe {
            destination: text("/t"),
            id: text("3"),
            ack: Some(AckMode::Client),
        }),
        plain(ToServer::Unsubscribe { id: text("0") }),
        plain(ToServer::Ack { id: text("m-1"), transaction: Some(text("tx1")) }),
        plain(ToServer::Ack { id: text("m-1"), transaction: None }),
        plain(ToServer::Nack { id: text("m-2"), transaction: None }),
        plain(ToServer::Begin { transaction: text("tx1") }),
        plain(ToServer::Commit { transaction: text("tx1") }),
        plain(ToServer::Abort { transaction: text("tx1") }),
        plain(ToServer::Disconnect { receipt: Some(text("77")) }),
        plain(ToServer::Disconnect { receipt: None }),
        Message {
            content: ToServer::Send {
                destination: text("/queue/b"),
                transaction: None,
                body: Some(b"x".to_vec()),
            },
            extra_headers: vec![
                header("priority", "9"),
                header("content-type", "text/plain"),
                header("priority", "1"),
                (b"odd:name".to_vec(), vec![0, 10, 13, 58, 92, 255]),
            ],
        },
    ]
}

#[test]
fn connect_frame_has_its_headers_in_order() {
    let m = plain(ToServer::Connect {
        accept_version: text("1.2"),
        host: text("example.com"),
        login: Some(text("guest")),
        passcode: Some(text("secret")),
        heartbeat: Some((10, 20)),
    });
    assert_eq!(
        m.to_frame(),
        frame(
            "CONNECT",
            &[
                ("accept-version", "1.2"),
                ("host", "example.com"),
                ("login", "guest"),
                ("passcode", "secret"),
                ("heart-beat", "10,20"),
            ],
            None
        )
    );
}

#[test]
fn absent_optional_fields_give_no_header() {
    let m = plain(ToServer::Connect {
        accept_version: text("1.2"),
        host: text("example.com"),
        login: None,
        passcode: None,
        heartbeat: None,
    });
    assert_eq!(
        m.to_frame(),
        frame("CONNECT", &[("accept-version", "1.2"), ("host", "example.com")], None)
    );
}

#[test]
fn send_frame_states_the_length_of_its_body() {
    let m = plain(ToServer::Send {
        destination: text("/queue/a"),
        transaction: Some(text("tx")),
        body: Some(b"hello world!".to_vec()),
    });
    assert_eq!(
        m.to_frame(),
        frame(
            "SEND",
            &[("destination", "/queue/a"), ("transaction", "tx"), ("content-length", "12")],
            Some(b"hello world!")
        )
    );
    assert_eq!(
        m.to_frame().to_bytes(),
        b"SEND\ndestination:/queue/a\ntransaction:tx\ncontent-length:12\n\nhello world!\x00".to_vec()
    );
}

#[test]
fn send_frame_without_body_has_no_length() {
    let m = plain(ToServer::Send { destination: text("/queue/a"), transaction: None, body: None });
    assert_eq!(m.to_frame(), frame("SEND", &[("destination", "/queue/a")], None));
}

#[test]
fn frames_of_the_other_kinds() {
    assert_eq!(
        plain(ToServer::Subscribe {
            destination: text("/t"),
            id: text("1"),
            ack: Some(AckMode::ClientIndividual)
        })
        .to_frame(),
        frame("SUBSCRIBE", &[("destination", "/t"), ("id", "1"), ("ack", "client-individual")], None)
    );
    assert_eq!(
        plain(ToServer::Subscribe { destination: text("/t"), id: text("1"), ack: Some(AckMode::Auto) })
            .to_frame(),
        frame("SUBSCRIBE", &[("destination", "/t"), ("id", "1"), ("ack", "auto")], None)
    );
    assert_eq!(
        plain(ToServer::Subscribe {
            destination: text("/t"),
            id: text("1"),
            ack: Some(AckMode::Client)
        })
        .to_frame(),
        frame("SUBSCRIBE", &[("destination", "/t"), ("id", "1"), ("ack", "client")], None)
    );
    assert_eq!(
        plain(ToServer::Unsubscribe { id: text("1") }).to_frame(),
        frame("UNSUBSCRIBE", &[("id", "1")], None)
    );
    assert_eq!(
        plain(ToServer::Ack { id: text("5"), transaction: Some(text("t")) }).to_frame(),
        frame("ACK", &[("id", "5"), ("transaction", "t")], None)
    );
    assert_eq!(
        plain(ToServer::Nack { id: text("5"), transaction: None }).to_frame(),
        frame("NACK", &[("id", "5")], None)
    );
    assert_eq!(
        plain(ToServer::Begin { transaction: text("t") }).to_frame(),
        frame("BEGIN", &[("transaction", "t")], None)
    );
    assert_eq!(
        plain(ToServer::Commit { transaction: text("t") }).to_frame(),
        frame("COMMIT", &[("transaction", "t")], None)
    );
    assert_eq!(
        plain(ToServer::Abort { transaction: text("t") }).to_frame(),
        frame("ABORT", &[("transaction", "t")], None)
    );
    assert_eq!(
        plain(ToServer::Disconnect { receipt: Some(text("r")) }).to_frame(),
        frame("DISCONNECT", &[("receipt", "r")], None)
    );
    assert_eq!(
        plain(ToServer::Disconnect { receipt: None }).to_frame(),
        frame("DISCONNECT", &[], None)
    );
}

#[test]
fn extra_headers_follow_the_typed_ones_as_they_are() {
    let m = Message {
        content: ToServer::Send {
            destination: text("/q"),
            transaction: None,
            body: Some(b"x".to_vec()),
        },
        extra_headers: vec![header("b", "2"), header("a", "1"), header("b", "3")],
    };
    assert_eq!(
        m.to_frame(),
        frame(
            "SEND",
            &[("destination", "/q"), ("content-length", "1"), ("b", "2"), ("a", "1"), ("b", "3")],
            Some(b"x")
        )
    );
}

#[test]
fn text_fields_are_written_as_utf8() {
    let m = plain(ToServer::Unsubscribe { id: text("\u{e9}\u{20ac}") });
    assert_eq!(
        m.to_frame().headers,
        vec![(b"id".to_vec(), vec![0xc3, 0xa9, 0xe2, 0x82, 0xac])]
    );
}

#[test]
fn every_kind_of_message_survives_the_wire() {
    for m in all_kinds() {
        let bytes = m.to_frame().to_bytes();
        let parsed = match parse_frame(&bytes) {
            ParseOutcome::Complete { frame, consumed } => {
                assert_eq!(consumed, bytes.len());
                frame
            }
            other => panic!("{:?} gave {:?}", m, other),
        };
        assert_eq!(parsed, m.to_frame());
        assert_eq!(Message::<ToServer>::from_frame(parsed), Ok(m));
    }
}

#[test]
fn connected_frame_becomes_connected() {
    let f = frame(
        "CONNECTED",
        &[("version", "1.2"), ("server", "broker/1.0"), ("heart-beat", "0,0"), ("session", "s-1")],
        None,
    );
    assert_eq!(
        Message::<FromServer>::from_frame(f),
        Ok(Message {
            content: FromServer::Connected {
                version: text("1.2"),
                session: Some(text("s-1")),
                server: Some(text("broker/1.0")),
                heartbeat: Some(text("0,0")),
            },
            extra_headers: vec![],
        })
    );
}

#[test]
fn connected_frame_with_version_only() {
    assert_eq!(
        Message::<FromServer>::from_frame(frame("CONNECTED", &[("version", "1.2")], None)),
        Ok(Message {
            content: FromServer::Connected {
                version: text("1.2"),
                session: None,
                server: None,
                heartbeat: None,
            },
            extra_headers: vec![],
        })
    );
}

#[test]
fn message_frame_becomes_message() {
    let f = frame(
        "MESSAGE",
        &[
            ("subscription", "0"),
            ("message-id", "007"),
            ("destination", "/queue/a"),
            ("content-type", "text/plain"),
            ("content-length", "5"),
        ],
        Some(b"hello"),
    );
    assert_eq!(
        Message::<FromServer>::from_frame(f),
        Ok(Message {
            content: FromServer::Message {
                destination: text("/queue/a"),
                message_id: text("007"),
                subscription: text("0"),
                body: Some(b"hello".to_vec()),
            },
            extra_headers: vec![header("content-type", "text/plain")],
        })
    );
}

#[test]
fn receipt_frame_becomes_receipt() {
    assert_eq!(
        Message::<FromServer>::from_frame(frame("RECEIPT", &[("receipt-id", "77")], None)),
        Ok(Message { content: FromServer::Receipt { receipt_id: text("77") }, extra_headers: vec![] })
    );
}

#[test]
fn error_frame_becomes_error() {
    assert_eq!(
        Message::<FromServer>::from_frame(frame(
            "ERROR",
            &[("message", "bad login")],
            Some(b"details")
        )),
        Ok(Message {
            content: FromServer::Error {
                message: Some(text("bad login")),
                body: Some(b"details".to_vec())
            },
            extra_headers: vec![],
        })
    );
    assert_eq!(
        Message::<FromServer>::from_frame(frame("ERROR", &[], None)),
        Ok(Message {
            content: FromServer::Error { message: None, body: None },
            extra_headers: vec![]
        })
    );
}

#[test]
fn first_header_of_a_name_counts_and_repeats_are_dropped() {
    let f = frame("RECEIPT", &[("receipt-id", "1"), ("x", "a"), ("receipt-id", "2"), ("x", "b")], None);
    assert_eq!(
        Message::<FromServer>::from_frame(f),
        Ok(Message {
            content: FromServer::Receipt { receipt_id: text("1") },
            extra_headers: vec![header("x", "a"), header("x", "b")],
        })
    );
}

#[test]
fn unknown_command_is_an_invalid_message() {
    assert_eq!(
        Message::<FromServer>::from_frame(frame("SEND", &[("destination", "/q")], None)),
        Err(ClientError::UnknownOrInvalidMessage)
    );
    assert_eq!(
        Message::<FromServer>::from_frame(frame("BOGUS", &[], None)),
        Err(ClientError::UnknownOrInvalidMessage)
    );
    assert_eq!(
        Message::<ToServer>::from_frame(frame("CONNECTED", &[("version", "1.2")], None)),
        Err(ClientError::UnknownOrInvalidMessage)
    );
}

#[test]
fn missing_required_header_is_an_invalid_message() {
    assert_eq!(
        Message::<FromServer>::from_frame(frame("CONNECTED", &[("server", "x")], None)),
        Err(ClientError::UnknownOrInvalidMessage)
    );
    assert_eq!(
        Message::<FromServer>::from_frame(frame(
            "MESSAGE",
            &[("destination", "/q"), ("message-id", "1")],
            Some(b"x")
        )),
        Err(ClientError::UnknownOrInvalidMessage)
    );
    assert_eq!(
        Message::<FromServer>::from_frame(frame("RECEIPT", &[], None)),
        Err(ClientError::UnknownOrInvalidMessage)
    );
    assert_eq!(
        Message::<ToServer>::from_frame(frame("SUBSCRIBE", &[("destination", "/q")], None)),
        Err(ClientError::UnknownOrInvalidMessage)
    );
    assert_eq!(
        Message::<ToServer>::from_frame(frame("BEGIN", &[], None)),
        Err(ClientError::UnknownOrInvalidMessage)
    );
}

#[test]
fn required_header_that_is_not_utf8_is_an_invalid_message() {
    let f = Frame {
        command: b"RECEIPT".to_vec(),
        headers: vec![(b"receipt-id".to_vec(), vec![0xff, 0xfe])],
        body: None,
    };
    assert_eq!(Message::<FromServer>::from_frame(f), Err(ClientError::UnknownOrInvalidMessage));
}

#[test]
fn optional_header_that_is_not_utf8_counts_as_absent() {
    let f = Frame {
        command: b"ERROR".to_vec(),
        headers: vec![(b"message".to_vec(), vec![0xc3])],
        body: None,
    };
    assert_eq!(
        Message::<FromServer>::from_frame(f),
        Ok(Message {
            content: FromServer::Error { message: None, body: None },
            extra_headers: vec![]
        })
    );
}

#[test]
fn utf8_header_values_become_text() {
    let f = Frame {
        command: b"RECEIPT".to_vec(),
        headers: vec![(b"receipt-id".to_vec(), vec![0xc3, 0xa9, 0xe2, 0x82, 0xac])],
        body: None,
    };
    assert_eq!(
        Message::<FromServer>::from_frame(f),
        Ok(Message {
            content: FromServer::Receipt { receipt_id: text("\u{e9}\u{20ac}") },
            extra_headers: vec![],
        })
    );
}

#[test]
fn heartbeat_and_ack_values_that_do_not_fit_count_as_absent() {
    let connect = |hb: &str| {
        Message::<ToServer>::from_frame(frame(
            "CONNECT",
            &[("accept-version", "1.2"), ("host", "h"), ("heart-beat", hb)],
            None,
        ))
        .map(|m| match m.content {
            ToServer::Connect { heartbeat, .. } => heartbeat,
            other => panic!("{:?}", other),
        })
    };
    assert_eq!(connect("10,20"), Ok(Some((10, 20))));
    assert_eq!(connect("0,4294967295"), Ok(Some((0, 4294967295))));
    assert_eq!(connect("0,4294967296"), Ok(None));
    assert_eq!(connect("10"), Ok(None));
    assert_eq!(connect("10,"), Ok(None));
    assert_eq!(connect(",10"), Ok(None));
    assert_eq!(connect("1,2,3"), Ok(None));
    let subscribe = |ack: &str| {
        Message::<ToServer>::from_frame(frame(
            "SUBSCRIBE",
            &[("destination", "/d"), ("id", "1"), ("ack", ack)],
            None,
        ))
        .map(|m| match m.content {
            ToServer::Subscribe { ack, .. } => ack,
            other => panic!("{:?}", other),
        })
    };
    assert_eq!(subscribe("auto"), Ok(Some(AckMode::Auto)));
    assert_eq!(subscribe("client"), Ok(Some(AckMode::Client)));
    assert_eq!(subscribe("client-individual"), Ok(Some(AckMode::ClientIndividual)));
    assert_eq!(subscribe("Client"), Ok(None));
    assert_eq!(subscribe(""), Ok(None));
}

#[test]
fn content_alone_becomes_a_message_without_extra_headers() {
    let content = ToServer::Begin { transaction: text("tx9") };
    let m: Message<ToServer> = content.clone().into();
    assert_eq!(m, Message { content, extra_headers: vec![] });
    assert_eq!(Message::from(ToServer::Unsubscribe { id: text("4") }).to_frame(), frame("UNSUBSCRIBE", &[("id", "4")], None));
}

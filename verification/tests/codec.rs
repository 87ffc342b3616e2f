use bytes::BytesMut;
use stomp_client::{subscribe, AckMode, ClientCodec, ClientError, FromServer, Message, ToServer};

fn text(s: &str) -> String {
    s.to_string()
}

fn receipt(id: &str) -> Message<FromServer> {
    Message { content: FromServer::Receipt { receipt_id: text(id) }, extra_headers: vec![] }
}

fn payload(destination: &str, id: &str, body: &[u8]) -> Message<FromServer> {
    Message {
        content: FromServer::Message {
            destination: text(destination),
            message_id: text(id),
            subscription: text("0"),
            body: Some(body.to_vec()),
        },
        extra_headers: vec![],
    }
}

/// Runs decode calls on `buf` until one yields nothing or fails, as a
/// transport would.
fn drain(buf: &mut BytesMut, out: &mut Vec<Result<Message<FromServer>, ClientError>>) -> bool {
    let mut codec = ClientCodec;
    loop {
        match codec.decode(buf) {
            Ok(Some(m)) => out.push(Ok(m)),
            Ok(None) => return true,
            Err(ClientError::MalformedFrame) => {
                out.push(Err(ClientError::MalformedFrame));
                return false;
            }
            Err(e) => out.push(Err(e)),
        }
    }
}

fn feed(chunks: &[&[u8]]) -> Vec<Result<Message<FromServer>, ClientError>> {
    let mut buf = BytesMut::new();
    let mut out = Vec::new();
    for chunk in chunks {
        buf.extend_from_slice(chunk);
        if !drain(&mut buf, &mut out) {
            break;
        }
    }
    out
}

const STREAM: &[u8] = b"CONNECTED\nversion:1.2\n\n\x00\nMESSAGE\ndestination:/q\nmessage-id:1\nsubscription:0\ncontent-length:4\n\na\x00\nb\x00\n\nRECEIPT\nreceipt-id:r\\c1\n\n\x00BOGUS\n\n\x00MESSAGE\ndestination:/q\nmessage-id:2\nsubscription:0\n\ntail\x00\n";

fn stream_messages() -> Vec<Result<Message<FromServer>, ClientError>> {
    vec![
        Ok(Message {
            content: FromServer::Connected {
                version: text("1.2"),
                session: None,
                server: None,
                heartbeat: None,
            },
            extra_headers: vec![],
        }),
        Ok(payload("/q", "1", b"a\x00\nb")),
        Ok(receipt("r:1")),
        Err(ClientError::UnknownOrInvalidMessage),
        Ok(payload("/q", "2", b"tail")),
    ]
}

#[test]
fn decode_on_an_empty_buffer_yields_nothing() {
    let mut buf = BytesMut::new();
    assert_eq!(ClientCodec.decode(&mut buf), Ok(None));
    assert!(buf.is_empty());
}

#[test]
fn decode_yields_the_message_and_drops_its_bytes() {
    let mut buf = BytesMut::from(&b"RECEIPT\nreceipt-id:77\n\n\x00REST"[..]);
    assert_eq!(ClientCodec.decode(&mut buf), Ok(Some(receipt("77"))));
    assert_eq!(&buf[..], b"REST");
}

#[test]
fn decode_leaves_a_partial_frame_in_the_buffer() {
    let whole: &[u8] = b"RECEIPT\nreceipt-id:77\n\n\x00";
    for k in 0..whole.len() {
        let mut buf = BytesMut::from(&whole[..k]);
        assert_eq!(ClientCodec.decode(&mut buf), Ok(None));
        assert_eq!(&buf[..], &whole[..k]);
        buf.extend_from_slice(&whole[k..]);
        assert_eq!(ClientCodec.decode(&mut buf), Ok(Some(receipt("77"))));
        assert!(buf.is_empty());
    }
}

#[test]
fn decode_reports_a_malformed_frame_and_leaves_the_buffer() {
    let bytes: &[u8] = b"SEND\nbadheader\n\n\x00";
    let mut buf = BytesMut::from(bytes);
    assert_eq!(ClientCodec.decode(&mut buf), Err(ClientError::MalformedFrame));
    assert_eq!(&buf[..], bytes);
}

#[test]
fn decode_reports_an_unknown_command_and_drops_its_frame() {
    let mut buf = BytesMut::from(&b"BOGUS\n\n\x00RECEIPT\nreceipt-id:1\n\n\x00"[..]);
    assert_eq!(ClientCodec.decode(&mut buf), Err(ClientError::UnknownOrInvalidMessage));
    assert_eq!(&buf[..], b"RECEIPT\nreceipt-id:1\n\n\x00");
    assert_eq!(ClientCodec.decode(&mut buf), Ok(Some(receipt("1"))));
    assert!(buf.is_empty());
}

#[test]
fn decode_reports_a_missing_required_header() {
    let mut buf = BytesMut::from(&b"CONNECTED\nserver:x\n\n\x00"[..]);
    assert_eq!(ClientCodec.decode(&mut buf), Err(ClientError::UnknownOrInvalidMessage));
    assert!(buf.is_empty());
}

#[test]
fn two_frames_in_one_chunk_come_out_in_two_calls() {
    let mut buf = BytesMut::from(
        &b"RECEIPT\nreceipt-id:1\n\n\x00MESSAGE\ndestination:/q\nmessage-id:9\nsubscription:0\n\nhi\x00"[..],
    );
    assert_eq!(ClientCodec.decode(&mut buf), Ok(Some(receipt("1"))));
    assert_eq!(&buf[..], b"MESSAGE\ndestination:/q\nmessage-id:9\nsubscription:0\n\nhi\x00");
    assert_eq!(ClientCodec.decode(&mut buf), Ok(Some(payload("/q", "9", b"hi"))));
    assert!(buf.is_empty());
    assert_eq!(ClientCodec.decode(&mut buf), Ok(None));
}

#[test]
fn line_feeds_between_frames_are_dropped_with_the_frame_before() {
    let mut buf = BytesMut::from(&b"\nRECEIPT\nreceipt-id:1\n\n\x00\n\nRECEIPT\nreceipt-id:2\n\n\x00\n"[..]);
    assert_eq!(ClientCodec.decode(&mut buf), Ok(Some(receipt("1"))));
    assert_eq!(&buf[..], b"RECEIPT\nreceipt-id:2\n\n\x00\n");
    assert_eq!(ClientCodec.decode(&mut buf), Ok(Some(receipt("2"))));
    assert!(buf.is_empty());
}

#[test]
fn the_whole_stream_in_one_chunk() {
    assert_eq!(feed(&[STREAM]), stream_messages());
}

#[test]
fn the_stream_byte_by_byte() {
    let chunks: Vec<&[u8]> = STREAM.chunks(1).collect();
    assert_eq!(feed(&chunks), stream_messages());
}

#[test]
fn the_stream_in_chunks_of_every_size() {
    for size in 1..=STREAM.len() {
        let chunks: Vec<&[u8]> = STREAM.chunks(size).collect();
        assert_eq!(feed(&chunks), stream_messages(), "chunks of {} bytes", size);
    }
}

#[test]
fn the_stream_cut_in_two_at_every_place() {
    for cut in 0..=STREAM.len() {
        assert_eq!(feed(&[&STREAM[..cut], &STREAM[cut..]]), stream_messages(), "cut at {}", cut);
    }
}

#[test]
fn a_malformed_frame_ends_the_stream_however_it_arrives() {
    let bytes: &[u8] = b"RECEIPT\nreceipt-id:1\n\n\x00SEND\nbadheader\n\n\x00RECEIPT\nreceipt-id:2\n\n\x00";
    let expected = vec![Ok(receipt("1")), Err(ClientError::MalformedFrame)];
    assert_eq!(feed(&[bytes]), expected);
    for cut in 0..=bytes.len() {
        assert_eq!(feed(&[&bytes[..cut], &bytes[cut..]]), expected, "cut at {}", cut);
    }
}

#[test]
fn encode_writes_the_wire_bytes_of_the_message() {
    let mut dst = BytesMut::new();
    let m = Message {
        content: ToServer::Send {
            destination: text("/queue/a"),
            transaction: None,
            body: Some(b"hello".to_vec()),
        },
        extra_headers: vec![(b"content-type".to_vec(), b"text/plain".to_vec())],
    };
    assert_eq!(ClientCodec.encode(m, &mut dst), Ok(()));
    assert_eq!(
        &dst[..],
        &b"SEND\ndestination:/queue/a\ncontent-length:5\ncontent-type:text/plain\n\nhello\x00"[..]
    );
}

#[test]
fn encode_appends_to_what_the_buffer_holds() {
    let mut dst = BytesMut::from(&b"ABORT\ntransaction:t\n\n\x00"[..]);
    assert_eq!(ClientCodec.encode(subscribe("/topic/a", "0"), &mut dst), Ok(()));
    assert_eq!(
        &dst[..],
        &b"ABORT\ntransaction:t\n\n\x00SUBSCRIBE\ndestination:/topic/a\nid:0\n\n\x00"[..]
    );
    let m = Message { content: ToServer::Disconnect { receipt: None }, extra_headers: vec![] };
    assert_eq!(ClientCodec.encode(m, &mut dst), Ok(()));
    assert!(dst.ends_with(b"\x00DISCONNECT\n\n\x00"));
}

#[test]
fn try_encode_appends_and_says_so() {
    let mut dst = BytesMut::from(&b"earlier"[..]);
    let m = Message { content: ToServer::Begin { transaction: text("t1") }, extra_headers: vec![] };
    assert!(ClientCodec.try_encode(&m, &mut dst));
    assert_eq!(&dst[..], &b"earlierBEGIN\ntransaction:t1\n\n\x00"[..]);
    assert!(ClientCodec.try_encode(&m, &mut dst));
    assert_eq!(dst.len(), 7 + 2 * 23);
}

#[test]
fn subscribe_builds_a_plain_subscription() {
    assert_eq!(
        subscribe("/queue/a", "sub-0"),
        Message {
            content: ToServer::Subscribe {
                destination: text("/queue/a"),
                id: text("sub-0"),
                ack: None
            },
            extra_headers: vec![],
        }
    );
    assert_ne!(
        subscribe("/queue/a", "sub-0").content,
        ToServer::Subscribe {
            destination: text("/queue/a"),
            id: text("sub-0"),
            ack: Some(AckMode::Auto)
        }
    );
}

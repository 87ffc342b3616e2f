//! The fixed vocabulary of the protocol as byte strings: commands, header
//! names and acknowledgement modes. Each word is given twice, as a
//! sequence for contracts and as a function that builds it.

use vstd::prelude::*;

verus! {

/// Separates the two numbers of a `heart-beat` value.
pub const COMMA: u8 = 44;

/// The command `CONNECT`.
pub open spec fn connect_command() -> Seq<u8> {
    seq![
        'C' as u8, 'O' as u8, 'N' as u8, 'N' as u8, 'E' as u8, 'C' as u8, 'T' as u8,
    ]
}

/// The command `CONNECT`.
pub fn connect_command_bytes() -> (v: Vec<u8>)
    ensures
        v@ == connect_command(),
{
    let v: Vec<u8> = vec![
        'C' as u8, 'O' as u8, 'N' as u8, 'N' as u8, 'E' as u8, 'C' as u8, 'T' as u8,
    ];
    assert(v@ =~= connect_command());
    v
}

/// The command `SEND`.
pub open spec fn send_command() -> Seq<u8> {
    seq![
        'S' as u8, 'E' as u8, 'N' as u8, 'D' as u8,
    ]
}

/// The command `SEND`.
pub fn send_command_bytes() -> (v: Vec<u8>)
    ensures
        v@ == send_command(),
{
    let v: Vec<u8> = vec![
        'S' as u8, 'E' as u8, 'N' as u8, 'D' as u8,
    ];
    assert(v@ =~= send_command());
    v
}

/// The command `SUBSCRIBE`.
pub open spec fn subscribe_command() -> Seq<u8> {
    seq![
        'S' as u8, 'U' as u8, 'B' as u8, 'S' as u8, 'C' as u8, 'R' as u8, 'I' as u8, 'B' as u8,
        'E' as u8,
    ]
}

/// The command `SUBSCRIBE`.
pub fn subscribe_command_bytes() -> (v: Vec<u8>)
    ensures
        v@ == subscribe_command(),
{
    let v: Vec<u8> = vec![
        'S' as u8, 'U' as u8, 'B' as u8, 'S' as u8, 'C' as u8, 'R' as u8, 'I' as u8, 'B' as u8,
        'E' as u8,
    ];
    assert(v@ =~= subscribe_command());
    v
}

/// The command `UNSUBSCRIBE`.
pub open spec fn unsubscribe_command() -> Seq<u8> {
    seq![
        'U' as u8, 'N' as u8, 'S' as u8, 'U' as u8, 'B' as u8, 'S' as u8, 'C' as u8, 'R' as u8,
        'I' as u8, 'B' as u8, 'E' as u8,
    ]
}

/// The command `UNSUBSCRIBE`.
pub fn unsubscribe_command_bytes() -> (v: Vec<u8>)
    ensures
        v@ == unsubscribe_command(),
{
    let v: Vec<u8> = vec![
        'U' as u8, 'N' as u8, 'S' as u8, 'U' as u8, 'B' as u8, 'S' as u8, 'C' as u8, 'R' as u8,
        'I' as u8, 'B' as u8, 'E' as u8,
    ];
    assert(v@ =~= unsubscribe_command());
    v
}

/// The command `ACK`.
pub open spec fn ack_command() -> Seq<u8> {
    seq![
        'A' as u8, 'C' as u8, 'K' as u8,
    ]
}

/// The command `ACK`.
pub fn ack_command_bytes() -> (v: Vec<u8>)
    ensures
        v@ == ack_command(),
{
    let v: Vec<u8> = vec![
        'A' as u8, 'C' as u8, 'K' as u8,
    ];
    assert(v@ =~= ack_command());
    v
}

/// The command `NACK`.
pub open spec fn nack_command() -> Seq<u8> {
    seq![
        'N' as u8, 'A' as u8, 'C' as u8, 'K' as u8,
    ]
}

/// The command `NACK`.
pub fn nack_command_bytes() -> (v: Vec<u8>)
    ensures
        v@ == nack_command(),
{
    let v: Vec<u8> = vec![
        'N' as u8, 'A' as u8, 'C' as u8, 'K' as u8,
    ];
    assert(v@ =~= nack_command());
    v
}

/// The command `BEGIN`.
pub open spec fn begin_command() -> Seq<u8> {
    seq![
        'B' as u8, 'E' as u8, 'G' as u8, 'I' as u8, 'N' as u8,
    ]
}

/// The command `BEGIN`.
pub fn begin_command_bytes() -> (v: Vec<u8>)
    ensures
        v@ == begin_command(),
{
    let v: Vec<u8> = vec![
        'B' as u8, 'E' as u8, 'G' as u8, 'I' as u8, 'N' as u8,
    ];
    assert(v@ =~= begin_command());
    v
}

/// The command `COMMIT`.
pub open spec fn commit_command() -> Seq<u8> {
    seq![
        'C' as u8, 'O' as u8, 'M' as u8, 'M' as u8, 'I' as u8, 'T' as u8,
    ]
}

/// The command `COMMIT`.
pub fn commit_command_bytes() -> (v: Vec<u8>)
    ensures
        v@ == commit_command(),
{
    let v: Vec<u8> = vec![
        'C' as u8, 'O' as u8, 'M' as u8, 'M' as u8, 'I' as u8, 'T' as u8,
    ];
    assert(v@ =~= commit_command());
    v
}

/// The command `ABORT`.
pub open spec fn abort_command() -> Seq<u8> {
    seq![
        'A' as u8, 'B' as u8, 'O' as u8, 'R' as u8, 'T' as u8,
    ]
}

/// The command `ABORT`.
pub fn abort_command_bytes() -> (v: Vec<u8>)
    ensures
        v@ == abort_command(),
{
    let v: Vec<u8> = vec![
        'A' as u8, 'B' as u8, 'O' as u8, 'R' as u8, 'T' as u8,
    ];
    assert(v@ =~= abort_command());
    v
}

/// The command `DISCONNECT`.
pub open spec fn disconnect_command() -> Seq<u8> {
    seq![
        'D' as u8, 'I' as u8, 'S' as u8, 'C' as u8, 'O' as u8, 'N' as u8, 'N' as u8, 'E' as u8,
        'C' as u8, 'T' as u8,
    ]
}

/// The command `DISCONNECT`.
pub fn disconnect_command_bytes() -> (v: Vec<u8>)
    ensures
        v@ == disconnect_command(),
{
    let v: Vec<u8> = vec![
        'D' as u8, 'I' as u8, 'S' as u8, 'C' as u8, 'O' as u8, 'N' as u8, 'N' as u8, 'E' as u8,
        'C' as u8, 'T' as u8,
    ];
    assert(v@ =~= disconnect_command());
    v
}

/// The command `CONNECTED`.
pub open spec fn connected_command() -> Seq<u8> {
    seq![
        'C' as u8, 'O' as u8, 'N' as u8, 'N' as u8, 'E' as u8, 'C' as u8, 'T' as u8, 'E' as u8,
        'D' as u8,
    ]
}

/// The command `CONNECTED`.
pub fn connected_command_bytes() -> (v: Vec<u8>)
    ensures
        v@ == connected_command(),
{
    let v: Vec<u8> = vec![
        'C' as u8, 'O' as u8, 'N' as u8, 'N' as u8, 'E' as u8, 'C' as u8, 'T' as u8, 'E' as u8,
        'D' as u8,
    ];
    assert(v@ =~= connected_command());
    v
}

/// The command `MESSAGE`.
pub open spec fn message_command() -> Seq<u8> {
    seq![
        'M' as u8, 'E' as u8, 'S' as u8, 'S' as u8, 'A' as u8, 'G' as u8, 'E' as u8,
    ]
}

/// The command `MESSAGE`.
pub fn message_command_bytes() -> (v: Vec<u8>)
    ensures
        v@ == message_command(),
{
    let v: Vec<u8> = vec![
        'M' as u8, 'E' as u8, 'S' as u8, 'S' as u8, 'A' as u8, 'G' as u8, 'E' as u8,
    ];
    assert(v@ =~= message_command());
    v
}

/// The command `RECEIPT`.
pub open spec fn receipt_command() -> Seq<u8> {
    seq![
        'R' as u8, 'E' as u8, 'C' as u8, 'E' as u8, 'I' as u8, 'P' as u8, 'T' as u8,
    ]
}

/// The command `RECEIPT`.
pub fn receipt_command_bytes() -> (v: Vec<u8>)
    ensures
        v@ == receipt_command(),
{
    let v: Vec<u8> = vec![
        'R' as u8, 'E' as u8, 'C' as u8, 'E' as u8, 'I' as u8, 'P' as u8, 'T' as u8,
    ];
    assert(v@ =~= receipt_command());
    v
}

/// The command `ERROR`.
pub open spec fn error_command() -> Seq<u8> {
    seq![
        'E' as u8, 'R' as u8, 'R' as u8, 'O' as u8, 'R' as u8,
    ]
}

/// The command `ERROR`.
pub fn error_command_bytes() -> (v: Vec<u8>)
    ensures
        v@ == error_command(),
{
    let v: Vec<u8> = vec![
        'E' as u8, 'R' as u8, 'R' as u8, 'O' as u8, 'R' as u8,
    ];
    assert(v@ =~= error_command());
    v
}

/// The header name `accept-version`.
pub open spec fn accept_version_name() -> Seq<u8> {
    seq![
        'a' as u8, 'c' as u8, 'c' as u8, 'e' as u8, 'p' as u8, 't' as u8, '-' as u8, 'v' as u8,
        'e' as u8, 'r' as u8, 's' as u8, 'i' as u8, 'o' as u8, 'n' as u8,
    ]
}

/// The header name `accept-version`.
pub fn accept_version_name_bytes() -> (v: Vec<u8>)
    ensures
        v@ == accept_version_name(),
{
    let v: Vec<u8> = vec![
        'a' as u8, 'c' as u8, 'c' as u8, 'e' as u8, 'p' as u8, 't' as u8, '-' as u8, 'v' as u8,
        'e' as u8, 'r' as u8, 's' as u8, 'i' as u8, 'o' as u8, 'n' as u8,
    ];
    assert(v@ =~= accept_version_name());
    v
}

/// The header name `host`.
pub open spec fn host_name() -> Seq<u8> {
    seq![
        'h' as u8, 'o' as u8, 's' as u8, 't' as u8,
    ]
}

/// The header name `host`.
pub fn host_name_bytes() -> (v: Vec<u8>)
    ensures
        v@ == host_name(),
{
    let v: Vec<u8> = vec![
        'h' as u8, 'o' as u8, 's' as u8, 't' as u8,
    ];
    assert(v@ =~= host_name());
    v
}

/// The header name `login`.
pub open spec fn login_name() -> Seq<u8> {
    seq![
        'l' as u8, 'o' as u8, 'g' as u8, 'i' as u8, 'n' as u8,
    ]
}

/// The header name `login`.
pub fn login_name_bytes() -> (v: Vec<u8>)
    ensures
        v@ == login_name(),
{
    let v: Vec<u8> = vec![
        'l' as u8, 'o' as u8, 'g' as u8, 'i' as u8, 'n' as u8,
    ];
    assert(v@ =~= login_name());
    v
}

/// The header name `passcode`.
pub open spec fn passcode_name() -> Seq<u8> {
    seq![
        'p' as u8, 'a' as u8, 's' as u8, 's' as u8, 'c' as u8, 'o' as u8, 'd' as u8, 'e' as u8,
    ]
}

/// The header name `passcode`.
pub fn passcode_name_bytes() -> (v: Vec<u8>)
    ensures
        v@ == passcode_name(),
{
    let v: Vec<u8> = vec![
        'p' as u8, 'a' as u8, 's' as u8, 's' as u8, 'c' as u8, 'o' as u8, 'd' as u8, 'e' as u8,
    ];
    assert(v@ =~= passcode_name());
    v
}

/// The header name `heart-beat`.
pub open spec fn heart_beat_name() -> Seq<u8> {
    seq![
        'h' as u8, 'e' as u8, 'a' as u8, 'r' as u8, 't' as u8, '-' as u8, 'b' as u8, 'e' as u8,
        'a' as u8, 't' as u8,
    ]
}

/// The header name `heart-beat`.
pub fn heart_beat_name_bytes() -> (v: Vec<u8>)
    ensures
        v@ == heart_beat_name(),
{
    let v: Vec<u8> = vec![
        'h' as u8, 'e' as u8, 'a' as u8, 'r' as u8, 't' as u8, '-' as u8, 'b' as u8, 'e' as u8,
        'a' as u8, 't' as u8,
    ];
    assert(v@ =~= heart_beat_name());
    v
}

/// The header name `destination`.
pub open spec fn destination_name() -> Seq<u8> {
    seq![
        'd' as u8, 'e' as u8, 's' as u8, 't' as u8, 'i' as u8, 'n' as u8, 'a' as u8, 't' as u8,
        'i' as u8, 'o' as u8, 'n' as u8,
    ]
}

/// The header name `destination`.
pub fn destination_name_bytes() -> (v: Vec<u8>)
    ensures
        v@ == destination_name(),
{
    let v: Vec<u8> = vec![
        'd' as u8, 'e' as u8, 's' as u8, 't' as u8, 'i' as u8, 'n' as u8, 'a' as u8, 't' as u8,
        'i' as u8, 'o' as u8, 'n' as u8,
    ];
    assert(v@ =~= destination_name());
    v
}

/// The header name `transaction`.
pub open spec fn transaction_name() -> Seq<u8> {
    seq![
        't' as u8, 'r' as u8, 'a' as u8, 'n' as u8, 's' as u8, 'a' as u8, 'c' as u8, 't' as u8,
        'i' as u8, 'o' as u8, 'n' as u8,
    ]
}

/// The header name `transaction`.
pub fn transaction_name_bytes() -> (v: Vec<u8>)
    ensures
        v@ == transaction_name(),
{
    let v: Vec<u8> = vec![
        't' as u8, 'r' as u8, 'a' as u8, 'n' as u8, 's' as u8, 'a' as u8, 'c' as u8, 't' as u8,
        'i' as u8, 'o' as u8, 'n' as u8,
    ];
    assert(v@ =~= transaction_name());
    v
}

/// The header name `id`.
pub open spec fn id_name() -> Seq<u8> {
    seq![
        'i' as u8, 'd' as u8,
    ]
}

/// The header name `id`.
pub fn id_name_bytes() -> (v: Vec<u8>)
    ensures
        v@ == id_name(),
{
    let v: Vec<u8> = vec![
        'i' as u8, 'd' as u8,
    ];
    assert(v@ =~= id_name());
    v
}

/// The header name `ack`.
pub open spec fn ack_name() -> Seq<u8> {
    seq![
        'a' as u8, 'c' as u8, 'k' as u8,
    ]
}

/// The header name `ack`.
pub fn ack_name_bytes() -> (v: Vec<u8>)
    ensures
        v@ == ack_name(),
{
    let v: Vec<u8> = vec![
        'a' as u8, 'c' as u8, 'k' as u8,
    ];
    assert(v@ =~= ack_name());
    v
}

/// The header name `receipt`.
pub open spec fn receipt_name() -> Seq<u8> {
    seq![
        'r' as u8, 'e' as u8, 'c' as u8, 'e' as u8, 'i' as u8, 'p' as u8, 't' as u8,
    ]
}

/// The header name `receipt`.
pub fn receipt_name_bytes() -> (v: Vec<u8>)
    ensures
        v@ == receipt_name(),
{
    let v: Vec<u8> = vec![
        'r' as u8, 'e' as u8, 'c' as u8, 'e' as u8, 'i' as u8, 'p' as u8, 't' as u8,
    ];
    assert(v@ =~= receipt_name());
    v
}

/// The header name `version`.
pub open spec fn version_name() -> Seq<u8> {
    seq![
        'v' as u8, 'e' as u8, 'r' as u8, 's' as u8, 'i' as u8, 'o' as u8, 'n' as u8,
    ]
}

/// The header name `version`.
pub fn version_name_bytes() -> (v: Vec<u8>)
    ensures
        v@ == version_name(),
{
    let v: Vec<u8> = vec![
        'v' as u8, 'e' as u8, 'r' as u8, 's' as u8, 'i' as u8, 'o' as u8, 'n' as u8,
    ];
    assert(v@ =~= version_name());
    v
}

/// The header name `session`.
pub open spec fn session_name() -> Seq<u8> {
    seq![
        's' as u8, 'e' as u8, 's' as u8, 's' as u8, 'i' as u8, 'o' as u8, 'n' as u8,
    ]
}

/// The header name `session`.
pub fn session_name_bytes() -> (v: Vec<u8>)
    ensures
        v@ == session_name(),
{
    let v: Vec<u8> = vec![
        's' as u8, 'e' as u8, 's' as u8, 's' as u8, 'i' as u8, 'o' as u8, 'n' as u8,
    ];
    assert(v@ =~= session_name());
    v
}

/// The header name `server`.
pub open spec fn server_name() -> Seq<u8> {
    seq![
        's' as u8, 'e' as u8, 'r' as u8, 'v' as u8, 'e' as u8, 'r' as u8,
    ]
}

/// The header name `server`.
pub fn server_name_bytes() -> (v: Vec<u8>)
    ensures
        v@ == server_name(),
{
    let v: Vec<u8> = vec![
        's' as u8, 'e' as u8, 'r' as u8, 'v' as u8, 'e' as u8, 'r' as u8,
    ];
    assert(v@ =~= server_name());
    v
}

/// The header name `message-id`.
pub open spec fn message_id_name() -> Seq<u8> {
    seq![
        'm' as u8, 'e' as u8, 's' as u8, 's' as u8, 'a' as u8, 'g' as u8, 'e' as u8, '-' as u8,
        'i' as u8, 'd' as u8,
    ]
}

/// The header name `message-id`.
pub fn message_id_name_bytes() -> (v: Vec<u8>)
    ensures
        v@ == message_id_name(),
{
    let v: Vec<u8> = vec![
        'm' as u8, 'e' as u8, 's' as u8, 's' as u8, 'a' as u8, 'g' as u8, 'e' as u8, '-' as u8,
        'i' as u8, 'd' as u8,
    ];
    assert(v@ =~= message_id_name());
    v
}

/// The header name `subscription`.
pub open spec fn subscription_name() -> Seq<u8> {
    seq![
        's' as u8, 'u' as u8, 'b' as u8, 's' as u8, 'c' as u8, 'r' as u8, 'i' as u8, 'p' as u8,
        't' as u8, 'i' as u8, 'o' as u8, 'n' as u8,
    ]
}

/// The header name `subscription`.
pub fn subscription_name_bytes() -> (v: Vec<u8>)
    ensures
        v@ == subscription_name(),
{
    let v: Vec<u8> = vec![
        's' as u8, 'u' as u8, 'b' as u8, 's' as u8, 'c' as u8, 'r' as u8, 'i' as u8, 'p' as u8,
        't' as u8, 'i' as u8, 'o' as u8, 'n' as u8,
    ];
    assert(v@ =~= subscription_name());
    v
}

/// The header name `receipt-id`.
pub open spec fn receipt_id_name() -> Seq<u8> {
    seq![
        'r' as u8, 'e' as u8, 'c' as u8, 'e' as u8, 'i' as u8, 'p' as u8, 't' as u8, '-' as u8,
        'i' as u8, 'd' as u8,
    ]
}

/// The header name `receipt-id`.
pub fn receipt_id_name_bytes() -> (v: Vec<u8>)
    ensures
        v@ == receipt_id_name(),
{
    let v: Vec<u8> = vec![
        'r' as u8, 'e' as u8, 'c' as u8, 'e' as u8, 'i' as u8, 'p' as u8, 't' as u8, '-' as u8,
        'i' as u8, 'd' as u8,
    ];
    assert(v@ =~= receipt_id_name());
    v
}

/// The header name `message`.
pub open spec fn message_name() -> Seq<u8> {
    seq![
        'm' as u8, 'e' as u8, 's' as u8, 's' as u8, 'a' as u8, 'g' as u8, 'e' as u8,
    ]
}

/// The header name `message`.
pub fn message_name_bytes() -> (v: Vec<u8>)
    ensures
        v@ == message_name(),
{
    let v: Vec<u8> = vec![
        'm' as u8, 'e' as u8, 's' as u8, 's' as u8, 'a' as u8, 'g' as u8, 'e' as u8,
    ];
    assert(v@ =~= message_name());
    v
}

/// The acknowledgement mode `auto`.
pub open spec fn auto_text() -> Seq<u8> {
    seq![
        'a' as u8, 'u' as u8, 't' as u8, 'o' as u8,
    ]
}

/// The acknowledgement mode `auto`.
pub fn auto_text_bytes() -> (v: Vec<u8>)
    ensures
        v@ == auto_text(),
{
    let v: Vec<u8> = vec![
        'a' as u8, 'u' as u8, 't' as u8, 'o' as u8,
    ];
    assert(v@ =~= auto_text());
    v
}

/// The acknowledgement mode `client`.
pub open spec fn client_text() -> Seq<u8> {
    seq![
        'c' as u8, 'l' as u8, 'i' as u8, 'e' as u8, 'n' as u8, 't' as u8,
    ]
}

/// The acknowledgement mode `client`.
pub fn client_text_bytes() -> (v: Vec<u8>)
    ensures
        v@ == client_text(),
{
    let v: Vec<u8> = vec![
        'c' as u8, 'l' as u8, 'i' as u8, 'e' as u8, 'n' as u8, 't' as u8,
    ];
    assert(v@ =~= client_text());
    v
}

/// The acknowledgement mode `client-individual`.
pub open spec fn client_individual_text() -> Seq<u8> {
    seq![
        'c' as u8, 'l' as u8, 'i' as u8, 'e' as u8, 'n' as u8, 't' as u8, '-' as u8, 'i' as u8,
        'n' as u8, 'd' as u8, 'i' as u8, 'v' as u8, 'i' as u8, 'd' as u8, 'u' as u8, 'a' as u8,
        'l' as u8,
    ]
}

/// The acknowledgement mode `client-individual`.
pub fn client_individual_text_bytes() -> (v: Vec<u8>)
    ensures
        v@ == client_individual_text(),
{
    let v: Vec<u8> = vec![
        'c' as u8, 'l' as u8, 'i' as u8, 'e' as u8, 'n' as u8, 't' as u8, '-' as u8, 'i' as u8,
        'n' as u8, 'd' as u8, 'i' as u8, 'v' as u8, 'i' as u8, 'd' as u8, 'u' as u8, 'a' as u8,
        'l' as u8,
    ];
    assert(v@ =~= client_individual_text());
    v
}

} // verus!

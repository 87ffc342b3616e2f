//! What holds of the two directions of the message mapping together: a
//! message to the server, turned into a frame, written, read and turned
//! back, is the same message.

use vstd::prelude::*;
use vstd::utf8::{
    decode_utf8, encode_utf8, encode_utf8_decode_utf8, encode_utf8_valid_utf8, valid_utf8,
};
use crate::error::ClientError;
use crate::frame::{
    content_length_name, is_command, lookup, parse_frame_spec, wire, HeaderView, ParseResult,
};
use crate::frame_laws::{lemma_frame_round_trip, well_formed};
use crate::message::{
    ack_of, ack_text, heartbeat_of, heartbeat_text, present, slot_names, to_server_frame,
    to_server_keys, to_server_message, without_names, AckMode, MessageView, Slot, ToServerView,
};
use crate::names::{
    abort_command, accept_version_name, ack_command, ack_name, auto_text, begin_command,
    client_individual_text, client_text, commit_command, connect_command, destination_name,
    disconnect_command, heart_beat_name, host_name, id_name, login_name, nack_command,
    passcode_name, receipt_name, send_command, subscribe_command, transaction_name,
    unsubscribe_command, COMMA,
};
use crate::text::{
    decimal_digits, is_digit, is_first_index, lemma_decimal_round_trip, lemma_first_index_found,
};

verus! {

// ---------------------------------------------------------------------------
// Headers of slots
// ---------------------------------------------------------------------------

/// No two slots have the same name.
pub open spec fn distinct_names(slots: Seq<Slot>) -> bool {
    forall|i: int, j: int| 0 <= i < j < slots.len() ==> slots[i].0 != slots[j].0
}

/// The value of the first slot called `name`.
pub open spec fn slot_value(slots: Seq<Slot>, name: Seq<u8>) -> Option<Seq<u8>>
    decreases slots.len(),
{
    if slots.len() == 0 {
        None
    } else if slots[0].0 == name {
        slots[0].1
    } else {
        slot_value(slots.skip(1), name)
    }
}

/// Headers without the name have no value for it.
pub proof fn lemma_lookup_absent(hs: Seq<HeaderView>, name: Seq<u8>)
    requires
        forall|t: int| 0 <= t < hs.len() ==> (#[trigger] hs[t]).0 != name,
    ensures
        lookup(hs, name) is None,
    decreases hs.len(),
{
    if hs.len() > 0 {
        assert(hs[0].0 != name);
        assert forall|t: int| 0 <= t < hs.skip(1).len() implies (#[trigger] hs.skip(1)[t]).0
            != name by {
            assert(hs.skip(1)[t] == hs[t + 1]);
        }
        lemma_lookup_absent(hs.skip(1), name);
    }
}

/// Slots without the name have no value for it.
pub proof fn lemma_slot_value_absent(slots: Seq<Slot>, name: Seq<u8>)
    requires
        forall|i: int| 0 <= i < slots.len() ==> (#[trigger] slots[i]).0 != name,
    ensures
        slot_value(slots, name) is None,
    decreases slots.len(),
{
    if slots.len() > 0 {
        assert(slots[0].0 != name);
        assert forall|i: int| 0 <= i < slots.skip(1).len() implies (#[trigger] slots.skip(
            1,
        )[i]).0 != name by {
            assert(slots.skip(1)[i] == slots[i + 1]);
        }
        lemma_slot_value_absent(slots.skip(1), name);
    }
}

/// Dropping the first of several slots with distinct names leaves slots
/// with distinct names, none of them called like the first.
pub proof fn lemma_distinct_names_skip(slots: Seq<Slot>)
    requires
        distinct_names(slots),
        slots.len() > 0,
    ensures
        distinct_names(slots.skip(1)),
        forall|i: int| 0 <= i < slots.skip(1).len() ==> (#[trigger] slots.skip(1)[i]).0 != slots[0].0,
{
    let rest = slots.skip(1);
    assert forall|i: int, j: int| 0 <= i < j < rest.len() implies rest[i].0 != rest[j].0 by {
        assert(rest[i] == slots[i + 1]);
        assert(rest[j] == slots[j + 1]);
    }
    assert forall|i: int| 0 <= i < rest.len() implies (#[trigger] rest[i]).0 != slots[0].0 by {
        assert(rest[i] == slots[i + 1]);
    }
}

/// Among slots with distinct names, a slot's name leads to its value.
pub proof fn lemma_slot_value_at(slots: Seq<Slot>, j: int)
    requires
        distinct_names(slots),
        0 <= j < slots.len(),
    ensures
        slot_value(slots, slots[j].0) == slots[j].1,
    decreases slots.len(),
{
    if j > 0 {
        lemma_distinct_names_skip(slots);
        assert(slots.skip(1)[j - 1] == slots[j]);
        lemma_slot_value_at(slots.skip(1), j - 1);
    }
}

/// In the headers written for slots with distinct names, followed by
/// headers of other names, a name has the value of its slot.
pub proof fn lemma_lookup_present(slots: Seq<Slot>, tail: Seq<HeaderView>, name: Seq<u8>)
    requires
        distinct_names(slots),
        forall|t: int| 0 <= t < tail.len() ==> (#[trigger] tail[t]).0 != name,
    ensures
        lookup(present(slots) + tail, name) == slot_value(slots, name),
    decreases slots.len(),
{
    if slots.len() == 0 {
        assert(present(slots) + tail =~= tail);
        lemma_lookup_absent(tail, name);
    } else {
        let rest = slots.skip(1);
        lemma_distinct_names_skip(slots);
        lemma_lookup_present(rest, tail, name);
        match slots[0].1 {
            Some(v) => {
                let all = present(slots) + tail;
                assert(all =~= seq![(slots[0].0, v)] + (present(rest) + tail));
                assert(all[0] == (slots[0].0, v));
                assert(all.skip(1) =~= present(rest) + tail);
            },
            None => {
                if slots[0].0 == name {
                    lemma_slot_value_absent(rest, name);
                }
            },
        }
    }
}

/// Headers of which none has a name among `keys` are all kept.
pub proof fn lemma_without_disjoint(hs: Seq<HeaderView>, keys: Seq<Seq<u8>>)
    requires
        forall|t: int| 0 <= t < hs.len() ==> !keys.contains((#[trigger] hs[t]).0),
    ensures
        without_names(hs, keys) == hs,
    decreases hs.len(),
{
    if hs.len() > 0 {
        assert(!keys.contains(hs[0].0));
        assert forall|t: int| 0 <= t < hs.skip(1).len() implies !keys.contains(
            (#[trigger] hs.skip(1)[t]).0,
        ) by {
            assert(hs.skip(1)[t] == hs[t + 1]);
        }
        lemma_without_disjoint(hs.skip(1), keys);
        assert(seq![hs[0]] + hs.skip(1) =~= hs);
    } else {
        assert(hs =~= Seq::<HeaderView>::empty());
    }
}

/// Of the headers written for slots, followed by headers of other names,
/// exactly the latter are kept when the slots' names are taken out.
pub proof fn lemma_without_present(slots: Seq<Slot>, tail: Seq<HeaderView>, keys: Seq<Seq<u8>>)
    requires
        forall|i: int| 0 <= i < slots.len() ==> keys.contains((#[trigger] slots[i]).0),
        forall|t: int| 0 <= t < tail.len() ==> !keys.contains((#[trigger] tail[t]).0),
    ensures
        without_names(present(slots) + tail, keys) == tail,
    decreases slots.len(),
{
    if slots.len() == 0 {
        assert(present(slots) + tail =~= tail);
        lemma_without_disjoint(tail, keys);
    } else {
        let rest = slots.skip(1);
        assert(keys.contains(slots[0].0));
        assert forall|i: int| 0 <= i < rest.len() implies keys.contains((#[trigger] rest[i]).0) by {
            assert(rest[i] == slots[i + 1]);
        }
        lemma_without_present(rest, tail, keys);
        match slots[0].1 {
            Some(v) => {
                let all = present(slots) + tail;
                assert(all =~= seq![(slots[0].0, v)] + (present(rest) + tail));
                assert(all[0] == (slots[0].0, v));
                assert(all.skip(1) =~= present(rest) + tail);
            },
            None => {},
        }
    }
}

// ---------------------------------------------------------------------------
// Header values
// ---------------------------------------------------------------------------

/// A text is read back from its UTF-8 bytes.
pub proof fn lemma_text_round_trip(s: Seq<char>)
    ensures
        valid_utf8(encode_utf8(s)),
        decode_utf8(encode_utf8(s)) == s,
{
    encode_utf8_valid_utf8(s);
    encode_utf8_decode_utf8(s);
}

/// A `heart-beat` value is read back as the two numbers it was written for.
pub proof fn lemma_heartbeat_round_trip(hb: (u32, u32))
    ensures
        heartbeat_of(heartbeat_text(hb)) == Some(hb),
{
    let a = decimal_digits(hb.0 as nat);
    let b = decimal_digits(hb.1 as nat);
    let v = heartbeat_text(hb);
    let c = a.len() as int;
    lemma_decimal_round_trip(hb.0 as nat);
    lemma_decimal_round_trip(hb.1 as nat);
    assert(is_first_index(v, COMMA, c)) by {
        assert(v[c] == COMMA);
        assert forall|j: int| 0 <= j < c implies v[j] != COMMA by {
            assert(v[j] == a[j]);
            assert(is_digit(a[j]));
        }
    }
    lemma_first_index_found(v, COMMA, c);
    assert(v.take(c) =~= a);
    assert(v.skip(c + 1) =~= b);
}

/// What tells the words of the vocabulary apart, and that the commands
/// are commands.
pub proof fn lemma_vocabulary()
    ensures
        connect_command().len() == 7,
        send_command().len() == 4 && send_command()[0] == 'S' as u8,
        subscribe_command().len() == 9,
        unsubscribe_command().len() == 11,
        ack_command().len() == 3,
        nack_command().len() == 4 && nack_command()[0] == 'N' as u8,
        begin_command().len() == 5 && begin_command()[0] == 'B' as u8,
        commit_command().len() == 6,
        abort_command().len() == 5 && abort_command()[0] == 'A' as u8,
        disconnect_command().len() == 10,
        is_command(connect_command()),
        is_command(send_command()),
        is_command(subscribe_command()),
        is_command(unsubscribe_command()),
        is_command(ack_command()),
        is_command(nack_command()),
        is_command(begin_command()),
        is_command(commit_command()),
        is_command(abort_command()),
        is_command(disconnect_command()),
        accept_version_name().len() == 14 && accept_version_name()[0] == 'a' as u8,
        content_length_name().len() == 14 && content_length_name()[0] == 'c' as u8,
        host_name().len() == 4,
        login_name().len() == 5,
        passcode_name().len() == 8,
        heart_beat_name().len() == 10,
        destination_name().len() == 11 && destination_name()[0] == 'd' as u8,
        transaction_name().len() == 11 && transaction_name()[0] == 't' as u8,
        id_name().len() == 2,
        ack_name().len() == 3,
        receipt_name().len() == 7,
        auto_text().len() == 4,
        client_text().len() == 6,
        client_individual_text().len() == 17,
{
}

/// An `ack` value is read back as the mode it was written for.
pub proof fn lemma_ack_round_trip(mode: AckMode)
    ensures
        ack_of(ack_text(mode)) == Some(mode),
{
    lemma_vocabulary();
}

// ---------------------------------------------------------------------------
// The round trip
// ---------------------------------------------------------------------------

/// A message whose extra headers do not use a header name that its type
/// models, and whose body has a length that the machine can count.
pub open spec fn round_trips(m: MessageView<ToServerView>) -> bool {
    &&& forall|t: int|
        0 <= t < m.extra_headers.len() ==> !to_server_keys(m.content.command()).contains(
            (#[trigger] m.extra_headers[t]).0,
        )
    &&& m.content.body() matches Some(b) ==> b.len() <= usize::MAX
}

/// In the frame of such a message every slot's name leads to the slot's
/// value, and the headers of other names are the extra headers.
pub proof fn lemma_slots_round_trip(m: MessageView<ToServerView>)
    requires
        round_trips(m),
        distinct_names(m.content.slots()),
        slot_names(m.content.slots()) == to_server_keys(m.content.command()),
    ensures
        forall|j: int|
            0 <= j < m.content.slots().len() ==> lookup(
                to_server_frame(m).headers,
                (#[trigger] m.content.slots()[j]).0,
            ) == m.content.slots()[j].1,
        without_names(to_server_frame(m).headers, to_server_keys(m.content.command()))
            == m.extra_headers,
{
    let slots = m.content.slots();
    let keys = to_server_keys(m.content.command());
    let tail = m.extra_headers;
    assert forall|i: int| 0 <= i < slots.len() implies keys.contains((#[trigger] slots[i]).0) by {
        assert(keys[i] == slots[i].0);
    }
    lemma_without_present(slots, tail, keys);
    assert forall|j: int| 0 <= j < slots.len() implies lookup(
        present(slots) + tail,
        (#[trigger] slots[j]).0,
    ) == slots[j].1 by {
        let name = slots[j].0;
        assert(keys.contains(name));
        assert forall|t: int| 0 <= t < tail.len() implies (#[trigger] tail[t]).0 != name by {
            assert(!keys.contains(tail[t].0));
        }
        lemma_lookup_present(slots, tail, name);
        lemma_slot_value_at(slots, j);
    }
}

/// Reading undoes writing, for messages: the frame of a message to the
/// server is well-formed, its wire bytes are read back as that frame, and
/// the frame is turned back into the message, typed fields and extra
/// headers alike, the latter in their order.
pub proof fn lemma_message_round_trip(m: MessageView<ToServerView>)
    requires
        round_trips(m),
    ensures
        well_formed(to_server_frame(m)),
        parse_frame_spec(wire(to_server_frame(m))) == (ParseResult::Complete {
            frame: to_server_frame(m),
            consumed: wire(to_server_frame(m)).len() as int,
        }),
        to_server_message(to_server_frame(m)) == Ok::<MessageView<ToServerView>, ClientError>(m),
{
    let f = to_server_frame(m);
    let slots = m.content.slots();
    let keys = to_server_keys(m.content.command());
    lemma_vocabulary();
    assert(slot_names(slots) =~= keys);
    assert(distinct_names(slots));
    lemma_slots_round_trip(m);
    let last = slots.len() - 1;
    assert(slots[last].0 == content_length_name());
    match m.content.body() {
        Some(b) => {
            lemma_decimal_round_trip(b.len());
        },
        None => {},
    }
    assert(well_formed(f));
    lemma_frame_round_trip(f);
    match m.content {
        ToServerView::Connect { accept_version, host, login, passcode, heartbeat } => {
            assert(slots[0].0 == accept_version_name());
            assert(slots[1].0 == host_name());
            assert(slots[2].0 == login_name());
            assert(slots[3].0 == passcode_name());
            assert(slots[4].0 == heart_beat_name());
            lemma_text_round_trip(accept_version);
            lemma_text_round_trip(host);
            if login is Some {
                lemma_text_round_trip(login->0);
            }
            if passcode is Some {
                lemma_text_round_trip(passcode->0);
            }
            if heartbeat is Some {
                lemma_heartbeat_round_trip(heartbeat->0);
            }
        },
        ToServerView::Send { destination, transaction, body } => {
            assert(slots[0].0 == destination_name());
            assert(slots[1].0 == transaction_name());
            lemma_text_round_trip(destination);
            if transaction is Some {
                lemma_text_round_trip(transaction->0);
            }
        },
        ToServerView::Subscribe { destination, id, ack } => {
            assert(slots[0].0 == destination_name());
            assert(slots[1].0 == id_name());
            assert(slots[2].0 == ack_name());
            lemma_text_round_trip(destination);
            lemma_text_round_trip(id);
            if ack is Some {
                lemma_ack_round_trip(ack->0);
            }
        },
        ToServerView::Unsubscribe { id } => {
            assert(slots[0].0 == id_name());
            lemma_text_round_trip(id);
        },
        ToServerView::Ack { id, transaction } => {
            assert(slots[0].0 == id_name());
            assert(slots[1].0 == transaction_name());
            lemma_text_round_trip(id);
            if transaction is Some {
                lemma_text_round_trip(transaction->0);
            }
        },
        ToServerView::Nack { id, transaction } => {
            assert(slots[0].0 == id_name());
            assert(slots[1].0 == transaction_name());
            lemma_text_round_trip(id);
            if transaction is Some {
                lemma_text_round_trip(transaction->0);
            }
        },
        ToServerView::Begin { transaction } => {
            assert(slots[0].0 == transaction_name());
            lemma_text_round_trip(transaction);
        },
        ToServerView::Commit { transaction } => {
            assert(slots[0].0 == transaction_name());
            lemma_text_round_trip(transaction);
        },
        ToServerView::Abort { transaction } => {
            assert(slots[0].0 == transaction_name());
            lemma_text_round_trip(transaction);
        },
        ToServerView::Disconnect { receipt } => {
            assert(slots[0].0 == receipt_name());
            if receipt is Some {
                lemma_text_round_trip(receipt->0);
            }
        },
    }
}

} // verus!

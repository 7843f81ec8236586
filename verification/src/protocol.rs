//! The text formats that travel between sensors, the hub and its WebSocket
//! clients, each stated as a sequence of characters and built by a verified
//! function.
use vstd::prelude::*;

use crate::decimal::{decimal, push_decimal, push_signed_decimal, signed_decimal};
use crate::text::{
    chars_of, contains_chars, contains_seq, find_char, lemma_split_once_at,
    lemma_split_once_none, push_chars, split_once, trim_end, trim_end_len,
};
use crate::std_trusted::{lossy_utf8, utf8_lossy};

verus! {

/// The marker of a reception stamp: `recv_ts:`.
pub open spec fn recv_ts_tag() -> Seq<char> {
    seq!['r', 'e', 'c', 'v', '_', 't', 's', ':']
}

/// The field appended to a stamped message: `|recv_ts:<ts>`.
pub open spec fn recv_ts_field(ts: int) -> Seq<char> {
    seq!['|'] + recv_ts_tag() + signed_decimal(ts)
}

/// A message as the hub forwards it: unchanged where it already carries a
/// reception stamp, else with the field `|recv_ts:<ts>` appended.
pub open spec fn stamped(m: Seq<char>, ts: int) -> Seq<char> {
    if contains_seq(m, recv_ts_tag()) {
        m
    } else {
        m + recv_ts_field(ts)
    }
}

/// The announcement of the number of connected clients: `USERS:<n>`.
pub open spec fn users_message(n: nat) -> Seq<char> {
    seq!['U', 'S', 'E', 'R', 'S', ':'] + decimal(n)
}

/// The greeting of a new client with the last value: `INIT:<latest>`.
pub open spec fn init_message(latest: Seq<char>) -> Seq<char> {
    seq!['I', 'N', 'I', 'T', ':'] + latest
}

/// A sensor reading: `<timestamp>|<prefix> #<counter>`.
pub open spec fn sensor_message(timestamp: nat, prefix: Seq<char>, counter: nat) -> Seq<char> {
    decimal(timestamp) + seq!['|'] + prefix + seq![' ', '#'] + decimal(counter)
}

/// The payload of a client's text: what follows its first `|`, or the whole
/// text where it has none.
pub open spec fn relay_payload(text: Seq<char>) -> Seq<char> {
    match split_once(text, '|') {
        Some((_, payload)) => payload,
        None => text,
    }
}

/// What the hub relays of a client's text `<send_ts>|<payload>`: the text as it
/// stands, or `0|<text>` where the text has no `|` and so no send timestamp.
pub open spec fn relay_message(text: Seq<char>) -> Seq<char> {
    match split_once(text, '|') {
        Some((head, payload)) => head + seq!['|'] + payload,
        None => seq!['0', '|'] + text,
    }
}

/// What the timestamping hub relays of a client's text:
/// `<head>|<payload>|recv_ts:<ts>`, with `0` as head where the text has no `|`.
pub open spec fn stamped_relay_message(text: Seq<char>, ts: int) -> Seq<char> {
    match split_once(text, '|') {
        Some((head, payload)) => head + seq!['|'] + payload + recv_ts_field(ts),
        None => seq!['0', '|'] + text + recv_ts_field(ts),
    }
}

/// The text of a datagram from a sensor: its lossy UTF-8 decoding without the
/// trailing whitespace.
pub open spec fn ipc_text(raw: Seq<u8>) -> Seq<char> {
    trim_end(lossy_utf8(raw))
}

/// `USERS:<n>`.
pub fn users_announcement(n: usize) -> (m: String)
    ensures
        m@ == users_message(n as nat),
{
    let mut m = String::new();
    proof {
        reveal_strlit("USERS:");
    }
    m.append("USERS:");
    push_decimal(&mut m, n as u128);
    assert(m@ =~= users_message(n as nat));
    m
}

/// `INIT:<latest>`.
pub fn init_announcement(latest: &str) -> (m: String)
    ensures
        m@ == init_message(latest@),
{
    let mut m = String::new();
    proof {
        reveal_strlit("INIT:");
    }
    m.append("INIT:");
    m.append(latest);
    assert(m@ =~= init_message(latest@));
    m
}

/// The characters of the marker `recv_ts:`.
fn recv_ts_tag_chars() -> (v: Vec<char>)
    ensures
        v@ == recv_ts_tag(),
{
    proof {
        reveal_strlit("recv_ts:");
    }
    let v = chars_of("recv_ts:");
    assert(v@ =~= recv_ts_tag());
    v
}

/// Appends `|recv_ts:<ts>` to `out`.
fn push_recv_ts_field(out: &mut String, ts: i64)
    ensures
        final(out)@ == old(out)@ + recv_ts_field(ts as int),
{
    proof {
        reveal_strlit("|recv_ts:");
    }
    out.append("|recv_ts:");
    push_signed_decimal(out, ts);
    assert(final(out)@ =~= old(out)@ + recv_ts_field(ts as int));
}

/// Whether `m` already carries a reception stamp, that is, holds `recv_ts:`.
pub fn has_recv_ts(m: &str) -> (r: bool)
    ensures
        r == contains_seq(m@, recv_ts_tag()),
{
    let v = chars_of(m);
    let tag = recv_ts_tag_chars();
    contains_chars(&v, &tag)
}

/// `m` as the hub forwards it, stamped with `ts` unless it already holds `recv_ts:`.
pub fn stamp(m: &str, ts: i64) -> (r: String)
    ensures
        r@ == stamped(m@, ts as int),
{
    let mut r = String::new();
    r.append(m);
    if !has_recv_ts(m) {
        push_recv_ts_field(&mut r, ts);
    }
    assert(r@ =~= stamped(m@, ts as int));
    r
}

/// The text of a sensor datagram: decoded as UTF-8 (invalid sequences replaced)
/// and without trailing whitespace.
pub fn decode_ipc_text(raw: &[u8]) -> (m: String)
    ensures
        m@ == ipc_text(raw@),
{
    let decoded = utf8_lossy(raw);
    let v = chars_of(decoded.as_str());
    let k = trim_end_len(&v);
    let mut m = String::new();
    push_chars(&mut m, &v, 0, k);
    assert(v@.subrange(0, k as int) =~= v@.take(k as int));
    assert(m@ =~= ipc_text(raw@));
    m
}

/// A client's text cut at its first `|`: the text before and after it, or `None`.
fn split_at_pipe(text: &str) -> (r: Option<(String, String)>)
    ensures
        match r {
            Some((head, payload)) => split_once(text@, '|') == Some((head@, payload@)),
            None => split_once(text@, '|') is None,
        },
{
    let v = chars_of(text);
    match find_char(&v, '|') {
        Some(i) => {
            proof {
                lemma_split_once_at(v@, '|', i as int);
            }
            let mut head = String::new();
            push_chars(&mut head, &v, 0, i);
            let mut payload = String::new();
            push_chars(&mut payload, &v, i + 1, v.len());
            assert(head@ =~= v@.take(i as int));
            assert(payload@ =~= v@.skip(i + 1));
            Some((head, payload))
        },
        None => {
            proof {
                lemma_split_once_none(v@, '|');
            }
            None
        },
    }
}

/// What the hub keeps and relays of a client's text: the payload, and
/// `<head>|<payload>` (with `0` as head where the text has no `|`).
pub fn relay(text: &str) -> (r: (String, String))
    ensures
        r.0@ == relay_payload(text@),
        r.1@ == relay_message(text@),
{
    match split_at_pipe(text) {
        Some((head, payload)) => {
            let mut message = head;
            message.push('|');
            message.append(payload.as_str());
            assert(message@ =~= relay_message(text@));
            (payload, message)
        },
        None => {
            let mut message = String::new();
            message.push('0');
            message.push('|');
            message.append(text);
            assert(message@ =~= relay_message(text@));
            let mut payload = String::new();
            payload.append(text);
            (payload, message)
        },
    }
}

/// What the timestamping hub keeps and relays of a client's text received at `ts`:
/// the payload, and `<head>|<payload>|recv_ts:<ts>` (with `0` as head where the
/// text has no `|`).
pub fn relay_stamped(text: &str, ts: i64) -> (r: (String, String))
    ensures
        r.0@ == relay_payload(text@),
        r.1@ == stamped_relay_message(text@, ts as int),
{
    match split_at_pipe(text) {
        Some((head, payload)) => {
            let mut message = head;
            message.push('|');
            message.append(payload.as_str());
            push_recv_ts_field(&mut message, ts);
            assert(message@ =~= stamped_relay_message(text@, ts as int));
            (payload, message)
        },
        None => {
            let mut message = String::new();
            message.push('0');
            message.push('|');
            message.append(text);
            push_recv_ts_field(&mut message, ts);
            assert(message@ =~= stamped_relay_message(text@, ts as int));
            let mut payload = String::new();
            payload.append(text);
            (payload, message)
        },
    }
}

} // verus!

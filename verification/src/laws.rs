//! Properties that relate the hub's operations and message formats to each other.
use vstd::prelude::*;

use crate::decimal::{decimal, lemma_decimal_digits, lemma_decimal_injective, signed_decimal};
use crate::ClockError;
use crate::hub::{
    announced_after_leave, client_text_outcome, clients_after_join, clients_after_leave,
    datagram_outcome, greeting, latest_after_datagram, needs_reception_time, relay_of_datagram,
};
use crate::protocol::{
    init_message, ipc_text, recv_ts_field, recv_ts_tag, relay_message, relay_payload, sensor_message, stamped,
    stamped_relay_message,
};
use crate::std_trusted::lossy_utf8;
use crate::text::{
    contains_seq, is_first_index, is_whitespace, lemma_split_once_at, lemma_split_once_none,
    lemma_trim_end_idempotent, lemma_trim_end_shape, split_once, trim_end,
};

verus! {

/// A client that connects and then leaves restores the count, and the count
/// announced when it leaves is that restored count.
pub proof fn law_connect_then_disconnect(n: usize)
    requires
        n < usize::MAX,
    ensures
        clients_after_leave((n + 1) as usize) == n,
        announced_after_leave((n + 1) as usize) == n,
{
}

/// Where `s` has a `c`, `split_once` finds one; the parts put back together
/// around `c` give `s` again.
pub proof fn law_split_once_rejoins(s: Seq<char>, c: char)
    requires
        s.contains(c),
    ensures
        split_once(s, c) matches Some((head, tail)) && head + seq![c] + tail == s,
{
    let k = choose|k: int| 0 <= k < s.len() && s[k] == c;
    let i = first_index_exists(s, c, k);
    lemma_split_once_at(s, c, i);
    assert(s.take(i) + seq![c] + s.skip(i + 1) =~= s);
}

/// Some position is the first `c` of `s`, at or before the `c` at `k`.
proof fn first_index_exists(s: Seq<char>, c: char, k: int) -> (i: int)
    requires
        0 <= k < s.len(),
        s[k] == c,
    ensures
        is_first_index(s, c, i),
        i <= k,
    decreases k,
{
    if exists|j: int| 0 <= j < k && s[j] == c {
        let j = choose|j: int| 0 <= j < k && s[j] == c;
        first_index_exists(s, c, j)
    } else {
        k
    }
}

/// A client's text that holds a `|` is relayed unchanged; one without is relayed
/// as `0|<text>`, with `0` standing for the missing send timestamp, and kept whole.
pub proof fn law_relay_shape(text: Seq<char>)
    ensures
        text.contains('|') ==> relay_message(text) == text,
        !text.contains('|') ==> relay_message(text) == seq!['0', '|'] + text
            && relay_payload(text) == text,
{
    if text.contains('|') {
        law_split_once_rejoins(text, '|');
    } else {
        lemma_split_once_none(text, '|');
    }
}

/// The timestamping hub relays a text that holds a `|` as the text followed by the
/// field `|recv_ts:<ts>`.
pub proof fn law_stamped_relay_shape(text: Seq<char>, ts: int)
    ensures
        text.contains('|') ==> stamped_relay_message(text, ts) == text + recv_ts_field(ts),
        !text.contains('|') ==> stamped_relay_message(text, ts) == seq!['0', '|'] + text
            + recv_ts_field(ts),
{
    if text.contains('|') {
        law_split_once_rejoins(text, '|');
        let (head, tail) = split_once(text, '|')->0;
        assert(head + seq!['|'] + tail + recv_ts_field(ts) =~= text + recv_ts_field(ts));
    } else {
        lemma_split_once_none(text, '|');
    }
}

/// Relaying what was relayed changes nothing: a client that sends back a relayed
/// message makes the hub relay the same message and keep the same value.
pub proof fn law_relay_idempotent(text: Seq<char>)
    ensures
        relay_message(relay_message(text)) == relay_message(text),
        relay_payload(relay_message(text)) == relay_payload(text),
{
    law_relay_shape(text);
    if !text.contains('|') {
        let m = seq!['0', '|'] + text;
        assert(is_first_index(m, '|', 1));
        lemma_split_once_at(m, '|', 1);
        assert(m.skip(2) =~= text);
        assert(m.contains('|')) by {
            assert(m[1] == '|');
        }
        law_relay_shape(m);
    }
}

/// A stamped message holds the marker `recv_ts:`.
pub proof fn law_stamped_has_marker(m: Seq<char>, ts: int)
    ensures
        contains_seq(stamped(m, ts), recv_ts_tag()),
{
    if !contains_seq(m, recv_ts_tag()) {
        let s = stamped(m, ts);
        let i: int = m.len() as int + 1;
        assert(s.subrange(i, i + recv_ts_tag().len() as int) =~= recv_ts_tag());
    }
}

/// Stamping is done once: a stamped message is relayed as it stands, whatever
/// the later time.
pub proof fn law_stamp_idempotent(m: Seq<char>, first: int, later: int)
    ensures
        stamped(stamped(m, first), later) == stamped(m, first),
{
    law_stamped_has_marker(m, first);
}

/// The stamped message starts with the text that the hub keeps as its last value.
pub proof fn law_stamped_extends(m: Seq<char>, ts: int)
    ensures
        stamped(m, ts).len() >= m.len(),
        stamped(m, ts).take(m.len() as int) == m,
{
    assert(stamped(m, ts).take(m.len() as int) =~= m);
}

/// The value kept from a sensor datagram is its decoded text up to the trailing
/// whitespace: a prefix of the decoded text, ending in no whitespace, so that
/// trimming it again changes nothing.
pub proof fn law_ipc_text_trimmed(raw: Seq<u8>)
    ensures
        ipc_text(raw) == lossy_utf8(raw).take(ipc_text(raw).len() as int),
        ipc_text(raw).len() > 0 ==> !is_whitespace(ipc_text(raw).last()),
        forall|i: int|
            ipc_text(raw).len() <= i < lossy_utf8(raw).len() ==> is_whitespace(
                #[trigger] lossy_utf8(raw)[i],
            ),
        trim_end(ipc_text(raw)) == ipc_text(raw),
{
    lemma_trim_end_shape(lossy_utf8(raw));
    lemma_trim_end_idempotent(lossy_utf8(raw));
}

/// A client that connects after a value was written is greeted with exactly that
/// value behind `INIT:`, and with nothing while the value is empty.
pub proof fn law_greeting_returns_value(value: Seq<char>)
    ensures
        value.len() == 0 <==> greeting(value) is None,
        greeting(value) matches Some(g) ==> g == init_message(value) && g.skip(5) == value,
{
    if value.len() > 0 {
        assert(init_message(value).skip(5) =~= value);
    }
}

/// A sensor reading cuts at its first `|` into the decimal timestamp and
/// `<prefix> #<counter>`: what a client reads as its head and payload.
pub proof fn law_sensor_message_fields(timestamp: nat, prefix: Seq<char>, counter: nat)
    ensures
        split_once(sensor_message(timestamp, prefix, counter), '|') == Some(
            (decimal(timestamp), prefix + seq![' ', '#'] + decimal(counter)),
        ),
        relay_payload(sensor_message(timestamp, prefix, counter)) == prefix + seq![' ', '#']
            + decimal(counter),
        relay_message(sensor_message(timestamp, prefix, counter)) == sensor_message(
            timestamp,
            prefix,
            counter,
        ),
{
    let m = sensor_message(timestamp, prefix, counter);
    let d = decimal(timestamp);
    lemma_decimal_digits(timestamp);
    assert(is_first_index(m, '|', d.len() as int)) by {
        assert forall|j: int| 0 <= j < d.len() implies m[j] != '|' by {
            assert(m[j] == d[j]);
        }
    }
    lemma_split_once_at(m, '|', d.len() as int);
    assert(m.take(d.len() as int) =~= d);
    assert(m.skip(d.len() as int + 1) =~= prefix + seq![' ', '#'] + decimal(counter));
    assert(m.contains('|')) by {
        assert(m[d.len() as int] == '|');
    }
    law_relay_shape(m);
}

/// The number of connections (`true`) among `events`.
pub open spec fn joins(events: Seq<bool>) -> nat
    decreases events.len(),
{
    if events.len() == 0 {
        0
    } else {
        joins(events.drop_last()) + if events.last() { 1nat } else { 0nat }
    }
}

/// The number of departures (`false`) among `events`.
pub open spec fn leaves(events: Seq<bool>) -> nat
    decreases events.len(),
{
    if events.len() == 0 {
        0
    } else {
        leaves(events.drop_last()) + if events.last() { 0nat } else { 1nat }
    }
}

/// The count the hub keeps after `events` (`true` a client connects, `false` a
/// client leaves), starting from `start`, each step as `Hub::connect` and
/// `Hub::disconnect` state it.
pub open spec fn clients_after(start: usize, events: Seq<bool>) -> usize
    decreases events.len(),
{
    if events.len() == 0 {
        start
    } else {
        let n = clients_after(start, events.drop_last());
        if events.last() {
            clients_after_join(n)
        } else {
            clients_after_leave(n)
        }
    }
}

/// Every client that leaves has connected before, and fewer than `usize::MAX`
/// clients are connected at any one time: in each prefix of `events`, the
/// departures are no more than the connections, and the difference stays below
/// `usize::MAX`.
pub open spec fn well_paired(events: Seq<bool>) -> bool {
    forall|k: int|
        0 <= k <= events.len() ==> leaves(#[trigger] events.take(k)) <= joins(events.take(k))
            && joins(events.take(k)) - leaves(events.take(k)) < usize::MAX
}

/// A prefix of well-paired events is well paired.
proof fn lemma_well_paired_prefix(events: Seq<bool>, k: int)
    requires
        well_paired(events),
        0 <= k <= events.len(),
    ensures
        well_paired(events.take(k)),
{
    assert forall|j: int| 0 <= j <= events.take(k).len() implies leaves(
        #[trigger] events.take(k).take(j),
    ) <= joins(events.take(k).take(j)) && joins(events.take(k).take(j)) - leaves(
        events.take(k).take(j),
    ) < usize::MAX by {
        assert(events.take(k).take(j) =~= events.take(j));
    }
}

/// Starting from no client, where every client that leaves has connected before
/// and fewer than `usize::MAX` are connected at once, the hub's count is at every
/// moment the number of clients connected and not yet gone: it never wraps.
pub proof fn law_client_count(events: Seq<bool>)
    requires
        well_paired(events),
    ensures
        clients_after(0, events) == joins(events) - leaves(events),
    decreases events.len(),
{
    if events.len() > 0 {
        let prev = events.drop_last();
        assert(prev =~= events.take(events.len() - 1));
        lemma_well_paired_prefix(events, events.len() - 1);
        law_client_count(prev);
        assert(events.take(events.len() as int) =~= events);
        assert(leaves(events.take(events.len() as int)) <= joins(events.take(events.len() as int)));
    }
}

/// Under the same conditions, the count that a departing client announces is the
/// count the hub keeps after it leaves.
pub proof fn law_leave_announces_count(events: Seq<bool>, k: int)
    requires
        well_paired(events),
        0 <= k < events.len(),
        !events[k],
    ensures
        announced_after_leave(clients_after(0, events.take(k))) == clients_after(
            0,
            events.take(k + 1),
        ),
        clients_after(0, events.take(k + 1)) == joins(events.take(k + 1)) - leaves(
            events.take(k + 1),
        ),
{
    let before = events.take(k);
    let after = events.take(k + 1);
    assert(after.drop_last() =~= before);
    lemma_well_paired_prefix(events, k);
    lemma_well_paired_prefix(events, k + 1);
    law_client_count(before);
    law_client_count(after);
    assert(after.take(after.len() as int) =~= after);
    assert(leaves(after.take(after.len() as int)) <= joins(after.take(after.len() as int)));
}

/// The last value after the sensor datagrams `ds`, starting from `latest`, each
/// step as `Hub::ipc_message` states it.
pub open spec fn latest_after_datagrams(latest: Seq<char>, ds: Seq<Seq<u8>>) -> Seq<char>
    decreases ds.len(),
{
    if ds.len() == 0 {
        latest
    } else {
        latest_after_datagram(latest_after_datagrams(latest, ds.drop_last()), ds.last())
    }
}

/// The messages the hub relays for the sensor datagrams `ds`, received at the
/// times `tss`, in order, each step as `Hub::ipc_message` states it.
pub open spec fn relayed_datagrams(ds: Seq<Seq<u8>>, tss: Seq<int>) -> Seq<Seq<char>>
    decreases ds.len(),
{
    if ds.len() == 0 {
        seq![]
    } else {
        let prev = relayed_datagrams(ds.drop_last(), tss.drop_last());
        match relay_of_datagram(ds.last(), tss.last()) {
            Some(m) => prev.push(m),
            None => prev,
        }
    }
}

/// For non-empty sensor datagrams received in order, the hub relays exactly one
/// message per datagram, in the same order, each the datagram's text stamped with
/// its reception time; afterwards the last value is the text of the last datagram.
pub proof fn law_ipc_sequence(latest: Seq<char>, ds: Seq<Seq<u8>>, tss: Seq<int>)
    requires
        tss.len() == ds.len(),
        forall|i: int| 0 <= i < ds.len() ==> #[trigger] ds[i].len() > 0,
    ensures
        relayed_datagrams(ds, tss).len() == ds.len(),
        forall|i: int|
            0 <= i < ds.len() ==> #[trigger] relayed_datagrams(ds, tss)[i] == stamped(
                ipc_text(ds[i]),
                tss[i],
            ),
        ds.len() > 0 ==> latest_after_datagrams(latest, ds) == ipc_text(ds.last()),
    decreases ds.len(),
{
    if ds.len() > 0 {
        let pds = ds.drop_last();
        let ptss = tss.drop_last();
        assert forall|i: int| 0 <= i < pds.len() implies #[trigger] pds[i].len() > 0 by {
            assert(pds[i] == ds[i]);
        }
        law_ipc_sequence(latest, pds, ptss);
        assert(ds[ds.len() - 1].len() > 0);
        let r = relayed_datagrams(ds, tss);
        assert forall|i: int| 0 <= i < ds.len() implies #[trigger] r[i] == stamped(
            ipc_text(ds[i]),
            tss[i],
        ) by {
            if i < ds.len() - 1 {
                assert(pds[i] == ds[i]);
                assert(ptss[i] == tss[i]);
            }
        }
    }
}

/// Whether `i` is the position of the last `c` in `s`.
pub open spec fn is_last_index(s: Seq<char>, c: char, i: int) -> bool {
    &&& 0 <= i < s.len()
    &&& s[i] == c
    &&& forall|j: int| i < j < s.len() ==> s[j] != c
}

/// In the payload `<prefix> #<counter>` of a sensor reading, the last `#` is the
/// one before the counter: what precedes ` #` there is the prefix, what follows
/// is the counter's digits.
pub proof fn law_sensor_counter_field(prefix: Seq<char>, counter: nat)
    ensures
        is_last_index(prefix + seq![' ', '#'] + decimal(counter), '#', prefix.len() as int + 1),
        (prefix + seq![' ', '#'] + decimal(counter)).take(prefix.len() as int) == prefix,
        (prefix + seq![' ', '#'] + decimal(counter)).skip(prefix.len() as int + 2) == decimal(counter),
{
    let t = prefix + seq![' ', '#'] + decimal(counter);
    lemma_decimal_digits(counter);
    assert forall|j: int| prefix.len() + 1 < j < t.len() implies t[j] != '#' by {
        assert(t[j] == decimal(counter)[j - prefix.len() - 2]);
    }
    assert(t.take(prefix.len() as int) =~= prefix);
    assert(t.skip(prefix.len() as int + 2) =~= decimal(counter));
}

/// The last position of a character is unique.
proof fn lemma_last_index_unique(s: Seq<char>, c: char, i: int, j: int)
    requires
        is_last_index(s, c, i),
        is_last_index(s, c, j),
    ensures
        i == j,
{
    if i < j {
        assert(s[j] != c);
    } else if j < i {
        assert(s[i] != c);
    }
}

/// Two sensor readings are equal exactly when their timestamps, prefixes and
/// counters are: a reading's text determines all three.
pub proof fn law_sensor_message_injective(
    t1: nat,
    p1: Seq<char>,
    c1: nat,
    t2: nat,
    p2: Seq<char>,
    c2: nat,
)
    ensures
        sensor_message(t1, p1, c1) == sensor_message(t2, p2, c2) <==> (t1 == t2 && p1 == p2 && c1
            == c2),
{
    if sensor_message(t1, p1, c1) == sensor_message(t2, p2, c2) {
        law_sensor_message_fields(t1, p1, c1);
        law_sensor_message_fields(t2, p2, c2);
        lemma_decimal_injective(t1, t2);
        let tail1 = p1 + seq![' ', '#'] + decimal(c1);
        let tail2 = p2 + seq![' ', '#'] + decimal(c2);
        assert(tail1 == tail2);
        law_sensor_counter_field(p1, c1);
        law_sensor_counter_field(p2, c2);
        lemma_last_index_unique(tail1, '#', p1.len() as int + 1, p2.len() as int + 1);
        lemma_decimal_injective(c1, c2);
    }
}

/// A sensor datagram whose text holds no `recv_ts:` yet is relayed as that text
/// followed by `|recv_ts:` and the UTC reading taken for it, whatever the text
/// holds otherwise; the hub answers with an error exactly when the clock does,
/// and then with the clock's own error.
pub proof fn law_datagram_stamped_with_reading(raw: Seq<u8>, reading: Result<i64, ClockError>)
    requires
        needs_reception_time(raw),
    ensures
        reading matches Ok(ts) ==> datagram_outcome(raw, reading) == Ok::<
            Option<Seq<char>>,
            ClockError,
        >(Some(ipc_text(raw) + seq!['|', 'r', 'e', 'c', 'v', '_', 't', 's', ':'] + signed_decimal(ts as int))),
        datagram_outcome(raw, reading) is Ok <==> reading is Ok,
        reading matches Err(e) ==> datagram_outcome(raw, reading) == Err::<Option<Seq<char>>, ClockError>(e),
{
    if reading is Ok {
        let ts = reading->Ok_0;
        assert(ipc_text(raw) + recv_ts_field(ts as int) =~= ipc_text(raw) + seq![
            '|',
            'r',
            'e',
            'c',
            'v',
            '_',
            't',
            's',
            ':',
        ] + signed_decimal(ts as int));
    }
}

/// The timestamping hub relays a client's text as `<send_ts>|<payload>` (with `0`
/// where the text has no `|`) followed by `|recv_ts:` and the UTC reading taken for
/// it, whatever the text holds; it answers with an error exactly when the clock
/// does, and then with the clock's own error.
pub proof fn law_client_text_stamped_with_reading(text: Seq<char>, reading: Result<i64, ClockError>)
    ensures
        reading matches Ok(ts) ==> client_text_outcome(text, reading) == Ok::<Seq<char>, ClockError>(
            (if text.contains('|') { text } else { seq!['0', '|'] + text }) + seq![
                '|',
                'r',
                'e',
                'c',
                'v',
                '_',
                't',
                's',
                ':',
            ] + signed_decimal(ts as int),
        ),
        client_text_outcome(text, reading) is Ok <==> reading is Ok,
        reading matches Err(e) ==> client_text_outcome(text, reading) == Err::<Seq<char>, ClockError>(e),
{
    if reading is Ok {
        let ts = reading->Ok_0;
        law_stamped_relay_shape(text, ts as int);
        assert(recv_ts_field(ts as int) =~= seq!['|', 'r', 'e', 'c', 'v', '_', 't', 's', ':']
            + signed_decimal(ts as int));
        if text.contains('|') {
            assert(text + recv_ts_field(ts as int) =~= text + seq![
                '|',
                'r',
                'e',
                'c',
                'v',
                '_',
                't',
                's',
                ':',
            ] + signed_decimal(ts as int));
        } else {
            assert(seq!['0', '|'] + text + recv_ts_field(ts as int) =~= seq!['0', '|'] + text + seq![
                '|',
                'r',
                'e',
                'c',
                'v',
                '_',
                't',
                's',
                ':',
            ] + signed_decimal(ts as int));
        }
    }
}

} // verus!

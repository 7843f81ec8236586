//! The hub's shared state: how many WebSocket clients are connected and the last
//! value that a sensor or a client sent. Each event the server sees (a client
//! connects, sends text or leaves; a sensor datagram arrives) is one method here,
//! which updates the state and returns the messages to send.
use vstd::prelude::*;

use crate::clock::UtcClock;
use crate::text::contains_seq;
use crate::ClockError;
use crate::protocol::{
    decode_ipc_text, has_recv_ts, init_announcement, init_message, ipc_text, recv_ts_tag, relay,
    relay_message, relay_payload, relay_stamped, stamp, stamped, stamped_relay_message,
    users_announcement, users_message,
};

verus! {

/// The state that all connections of the hub share.
pub struct Hub {
    /// The number of connected clients, as the hub counts them.
    pub clients: usize,
    /// The last value received, which a new client is greeted with.
    pub latest: String,
    /// The UTC clock that reception stamps are read from, with its readings.
    pub clock: UtcClock,
}

/// The count kept after a client leaves: one less, wrapping below zero as an
/// atomic `fetch_sub` does.
pub open spec fn clients_after_leave(n: usize) -> usize {
    if n == 0 {
        usize::MAX
    } else {
        (n - 1) as usize
    }
}

/// The count announced after a client leaves: one less, but never below zero.
pub open spec fn announced_after_leave(n: usize) -> nat {
    if n == 0 {
        0
    } else {
        (n - 1) as nat
    }
}

/// The greeting of a new client: `INIT:<latest>`, or none while nothing was received.
pub open spec fn greeting(latest: Seq<char>) -> Option<Seq<char>> {
    if latest.len() == 0 {
        None
    } else {
        Some(init_message(latest))
    }
}

/// The count kept after a client connects: one more.
pub open spec fn clients_after_join(n: usize) -> usize {
    (n + 1) as usize
}

/// The last value after a sensor datagram `raw`: its text, or the value before
/// where the datagram is empty.
pub open spec fn latest_after_datagram(latest: Seq<char>, raw: Seq<u8>) -> Seq<char> {
    if raw.len() == 0 {
        latest
    } else {
        ipc_text(raw)
    }
}

/// What the hub relays of a sensor datagram `raw` received at `ts`: nothing for an
/// empty one, else its text stamped with `ts`.
pub open spec fn relay_of_datagram(raw: Seq<u8>, ts: int) -> Option<Seq<char>> {
    if raw.len() == 0 {
        None
    } else {
        Some(stamped(ipc_text(raw), ts))
    }
}

/// Whether the hub reads the UTC clock for a sensor datagram `raw`: it is not
/// empty and its text holds no `recv_ts:` yet.
pub open spec fn needs_reception_time(raw: Seq<u8>) -> bool {
    raw.len() > 0 && !contains_seq(ipc_text(raw), recv_ts_tag())
}

/// What the hub answers for a sensor datagram `raw` when the UTC clock gave
/// `reading`: the clock's error, or what it relays of `raw` at that time.
pub open spec fn datagram_outcome(raw: Seq<u8>, reading: Result<i64, ClockError>) -> Result<
    Option<Seq<char>>,
    ClockError,
> {
    match reading {
        Ok(ts) => Ok(relay_of_datagram(raw, ts as int)),
        Err(e) => Err(e),
    }
}

/// What the timestamping hub answers for a client's `text` when the UTC clock gave
/// `reading`: the clock's error, or the stamped relay of `text` at that time.
pub open spec fn client_text_outcome(text: Seq<char>, reading: Result<i64, ClockError>) -> Result<
    Seq<char>,
    ClockError,
> {
    match reading {
        Ok(ts) => Ok(stamped_relay_message(text, ts as int)),
        Err(e) => Err(e),
    }
}

/// The view of an answer that may carry a message.
pub open spec fn outcome_view(r: Result<Option<String>, ClockError>) -> Result<
    Option<Seq<char>>,
    ClockError,
> {
    match r {
        Ok(m) => Ok(opt_view(m)),
        Err(e) => Err(e),
    }
}

/// The view of an answer that carries a message.
pub open spec fn text_outcome_view(r: Result<String, ClockError>) -> Result<Seq<char>, ClockError> {
    match r {
        Ok(m) => Ok(m@),
        Err(e) => Err(e),
    }
}

/// The view of an optional message.
pub open spec fn opt_view(m: Option<String>) -> Option<Seq<char>> {
    match m {
        Some(s) => Some(s@),
        None => None,
    }
}

impl Hub {
    /// A hub with no client and no value yet.
    pub fn new() -> (h: Hub)
        ensures
            h.clients == 0,
            h.latest@ == Seq::<char>::empty(),
            h.clock.readings() == Seq::<Result<i64, ClockError>>::empty(),
    {
        Hub { clients: 0, latest: String::new(), clock: UtcClock::new() }
    }

    /// A client connects: the count goes up by one. Returns the announcement
    /// `USERS:<count>` for every client, and the greeting `INIT:<latest>` for the
    /// new client where a value was received before.
    pub fn connect(&mut self) -> (r: (String, Option<String>))
        requires
            old(self).clients < usize::MAX,
        ensures
            final(self).clock == old(self).clock,
            final(self).clients == old(self).clients + 1,
            final(self).clients == clients_after_join(old(self).clients),
            final(self).latest == old(self).latest,
            r.0@ == users_message(final(self).clients as nat),
            opt_view(r.1) == greeting(old(self).latest@),
    {
        self.clients = self.clients + 1;
        let announcement = users_announcement(self.clients);
        let greeting = if self.latest.as_str().is_empty() {
            None
        } else {
            Some(init_announcement(self.latest.as_str()))
        };
        (announcement, greeting)
    }

    /// A client leaves: the count goes down by one (wrapping below zero). Returns
    /// the announcement `USERS:<count>`, with the count one less than before but
    /// not below zero.
    pub fn disconnect(&mut self) -> (announcement: String)
        ensures
            final(self).clock == old(self).clock,
            final(self).clients == clients_after_leave(old(self).clients),
            final(self).latest == old(self).latest,
            announcement@ == users_message(announced_after_leave(old(self).clients)),
    {
        let before = self.clients;
        self.clients = if before == 0 { usize::MAX } else { before - 1 };
        let remaining: usize = if before == 0 { 0 } else { before - 1 };
        users_announcement(remaining)
    }

    /// A client sends `text`: its payload becomes the last value. Returns the
    /// message echoed to the sender and relayed to everyone.
    pub fn client_text(&mut self, text: &str) -> (relayed: String)
        ensures
            final(self).clock == old(self).clock,
            final(self).clients == old(self).clients,
            final(self).latest@ == relay_payload(text@),
            relayed@ == relay_message(text@),
    {
        let (payload, message) = relay(text);
        self.latest = payload;
        message
    }

    /// A client sends `text`, received at `ts` microseconds: its payload becomes
    /// the last value. Returns the stamped message echoed and relayed.
    pub fn client_text_stamped(&mut self, text: &str, ts: i64) -> (relayed: String)
        ensures
            final(self).clock == old(self).clock,
            final(self).clients == old(self).clients,
            final(self).latest@ == relay_payload(text@),
            relayed@ == stamped_relay_message(text@, ts as int),
    {
        let (payload, message) = relay_stamped(text, ts);
        self.latest = payload;
        message
    }

    /// As `client_text_stamped`, with the reception time read once from the hub's
    /// UTC clock: the stamp is the reading this call adds to the clock's record.
    /// Where the clock cannot be read as a UTC timestamp, only that reading is
    /// recorded and the clock's error is returned.
    pub fn client_text_stamped_now(&mut self, text: &str) -> (r: Result<String, ClockError>)
        ensures
            final(self).clients == old(self).clients,
            r matches Ok(relayed) ==> final(self).latest@ == relay_payload(text@) && exists|ts: i64|
                relayed@ == #[trigger] stamped_relay_message(text@, ts as int),
            r is Err ==> final(self).latest == old(self).latest,
            final(self).clock.readings() == old(self).clock.readings().push(
                final(self).clock.readings().last(),
            ),
            text_outcome_view(r) == client_text_outcome(text@, final(self).clock.readings().last()),
    {
        let ts = self.clock.read()?;
        Ok(self.client_text_stamped(text, ts))
    }

    /// A sensor datagram `raw` arrives, at `ts` microseconds. An empty one changes
    /// nothing and is not relayed. Otherwise its text becomes the last value, and
    /// the text is relayed stamped with `ts` unless it already holds `recv_ts:`.
    pub fn ipc_message(&mut self, raw: &[u8], ts: i64) -> (relayed: Option<String>)
        ensures
            final(self).clock == old(self).clock,
            final(self).clients == old(self).clients,
            final(self).latest@ == latest_after_datagram(old(self).latest@, raw@),
            opt_view(relayed) == relay_of_datagram(raw@, ts as int),
            raw@.len() == 0 ==> final(self).latest == old(self).latest,
    {
        if raw.len() == 0 {
            return None;
        }
        let text = decode_ipc_text(raw);
        let relayed = stamp(text.as_str(), ts);
        self.latest = text;
        Some(relayed)
    }

    /// As `ipc_message`, with the reception time read once from the hub's UTC clock,
    /// and read only where the datagram is not empty and its text holds no
    /// `recv_ts:` yet: the stamp is the reading this call adds to the clock's
    /// record. Where that reading is an error, only the reading is recorded and the
    /// clock's error is returned.
    pub fn ipc_message_now(&mut self, raw: &[u8]) -> (r: Result<Option<String>, ClockError>)
        ensures
            final(self).clients == old(self).clients,
            raw@.len() == 0 ==> r matches Ok(None),
            contains_seq(ipc_text(raw@), recv_ts_tag()) ==> r is Ok,
            r matches Ok(relayed) ==> final(self).latest@ == latest_after_datagram(
                old(self).latest@,
                raw@,
            ) && exists|ts: i64| opt_view(relayed) == #[trigger] relay_of_datagram(raw@, ts as int),
            r is Err ==> final(self).latest == old(self).latest,
            raw@.len() == 0 ==> final(self).latest == old(self).latest,
            !needs_reception_time(raw@) ==> final(self).clock == old(self).clock && outcome_view(r)
                == Ok::<Option<Seq<char>>, ClockError>(relay_of_datagram(raw@, 0)),
            needs_reception_time(raw@) ==> final(self).clock.readings() == old(
                self,
            ).clock.readings().push(final(self).clock.readings().last()) && outcome_view(r)
                == datagram_outcome(raw@, final(self).clock.readings().last()),
    {
        if raw.len() == 0 {
            return Ok(None);
        }
        let text = decode_ipc_text(raw);
        let ts: i64 = if has_recv_ts(text.as_str()) {
            0
        } else {
            self.clock.read()?
        };
        Ok(self.ipc_message(raw, ts))
    }
}

} // verus!

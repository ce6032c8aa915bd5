//! Structured log events and the bounded buffer that keeps the latest of them.

use std::collections::VecDeque;
use vstd::prelude::*;

verus! {

/// The mathematical value of a [`LogEvent`].
pub struct LogEventView {
    pub ts: Seq<char>,
    pub level: Seq<char>,
    pub event: Seq<char>,
    pub request_hash: Option<Seq<char>>,
    pub method: Option<Seq<char>>,
    pub latency_ms: Option<u64>,
    pub note: Option<Seq<char>>,
}

impl LogEventView {
    /// An event with a time, a level and a name, and nothing else.
    pub open spec fn bare(ts: Seq<char>, level: Seq<char>, event: Seq<char>) -> LogEventView {
        LogEventView {
            ts,
            level,
            event,
            request_hash: None,
            method: None,
            latency_ms: None,
            note: None,
        }
    }

    /// The event with its time blanked: what it says, not when.
    pub open spec fn untimed(self) -> LogEventView {
        LogEventView { ts: Seq::empty(), ..self }
    }
}

/// The characters of an optional string.
pub open spec fn text_view(text: Option<String>) -> Option<Seq<char>> {
    match text {
        Some(s) => Some(s@),
        None => None,
    }
}

/// One entry of the event log.
#[derive(Debug, PartialEq, Eq)]
pub struct LogEvent {
    pub ts: String,
    pub level: String,
    pub event: String,
    pub request_hash: Option<String>,
    pub method: Option<String>,
    pub latency_ms: Option<u64>,
    pub note: Option<String>,
}

impl View for LogEvent {
    type V = LogEventView;

    open spec fn view(&self) -> LogEventView {
        LogEventView {
            ts: self.ts@,
            level: self.level@,
            event: self.event@,
            request_hash: text_view(self.request_hash),
            method: text_view(self.method),
            latency_ms: self.latency_ms,
            note: text_view(self.note),
        }
    }
}

/// `chrono::Utc::now().to_rfc3339()`: the current time in UTC as RFC 3339
/// text. It changes from call to call, so nothing is claimed of it.
#[verifier::external_body]
fn now_rfc3339() -> String {
    chrono::Utc::now().to_rfc3339()
}

fn copy_text(text: &Option<String>) -> (copy: Option<String>)
    ensures
        text_view(copy) == text_view(*text),
{
    match text {
        Some(s) => Some(s.clone()),
        None => None,
    }
}

impl LogEvent {
    /// An event at a given time.
    pub fn at(ts: String, level: &str, event: &str) -> (entry: LogEvent)
        ensures
            entry@ == LogEventView::bare(ts@, level@, event@),
    {
        LogEvent {
            ts,
            level: level.to_owned(),
            event: event.to_owned(),
            request_hash: None,
            method: None,
            latency_ms: None,
            note: None,
        }
    }

    /// An event at the current time. Its time is whatever the clock says;
    /// the rest is as given.
    pub fn new(level: &str, event: &str) -> (entry: LogEvent)
        ensures
            entry@ == LogEventView::bare(entry@.ts, level@, event@),
    {
        LogEvent::at(now_rfc3339(), level, event)
    }

    /// The event with the request's hash set.
    pub fn with_hash(self, hash: String) -> (entry: LogEvent)
        ensures
            entry@ == (LogEventView { request_hash: Some(hash@), ..self@ }),
    {
        let mut entry = self;
        entry.request_hash = Some(hash);
        entry
    }

    /// The event with the request's method set.
    pub fn with_method(self, method: String) -> (entry: LogEvent)
        ensures
            entry@ == (LogEventView { method: Some(method@), ..self@ }),
    {
        let mut entry = self;
        entry.method = Some(method);
        entry
    }

    /// The event with the latency in milliseconds set.
    pub fn with_latency(self, latency_ms: u64) -> (entry: LogEvent)
        ensures
            entry@ == (LogEventView { latency_ms: Some(latency_ms), ..self@ }),
    {
        let mut entry = self;
        entry.latency_ms = Some(latency_ms);
        entry
    }

    /// The event with a note set.
    pub fn with_note(self, note: String) -> (entry: LogEvent)
        ensures
            entry@ == (LogEventView { note: Some(note@), ..self@ }),
    {
        let mut entry = self;
        entry.note = Some(note);
        entry
    }
}

impl Clone for LogEvent {
    fn clone(&self) -> (copy: LogEvent)
        ensures
            copy@ == self@,
    {
        LogEvent {
            ts: self.ts.clone(),
            level: self.level.clone(),
            event: self.event.clone(),
            request_hash: copy_text(&self.request_hash),
            method: copy_text(&self.method),
            latency_ms: self.latency_ms,
            note: copy_text(&self.note),
        }
    }
}

/// The buffer after one more event: when it is full, the oldest event
/// makes room.
pub open spec fn after_record(
    events: Seq<LogEventView>,
    capacity: nat,
    event: LogEventView,
) -> Seq<LogEventView> {
    if events.len() >= capacity && events.len() > 0 {
        events.drop_first().push(event)
    } else {
        events.push(event)
    }
}

/// The latest `limit` events, oldest first; all of them where there are fewer.
pub open spec fn latest(events: Seq<LogEventView>, limit: nat) -> Seq<LogEventView> {
    if limit >= events.len() {
        events
    } else {
        events.skip(events.len() - limit)
    }
}

/// The views of a sequence of events.
pub open spec fn events_view(events: Seq<LogEvent>) -> Seq<LogEventView> {
    Seq::new(events.len(), |i: int| events[i]@)
}

/// The latest events of the log, at most `capacity` of them (one where
/// the capacity is zero), for a dashboard to replay. `broadcast_capacity` is
/// the room that the host gives its live fan-out of the same events.
pub struct LogState {
    capacity: usize,
    broadcast_capacity: usize,
    buffer: VecDeque<LogEvent>,
}

impl View for LogState {
    type V = Seq<LogEventView>;

    /// The buffered events, oldest first.
    closed spec fn view(&self) -> Seq<LogEventView> {
        events_view(self.buffer@)
    }
}

impl LogState {
    /// The number of events at which the oldest starts to make room.
    pub closed spec fn capacity(&self) -> nat {
        self.capacity as nat
    }

    /// The room for the live fan-out.
    pub closed spec fn spec_broadcast_capacity(&self) -> usize {
        self.broadcast_capacity
    }

    /// An empty log.
    pub fn new(capacity: usize, broadcast_capacity: usize) -> (log: LogState)
        ensures
            log@ == Seq::<LogEventView>::empty(),
            log.capacity() == capacity,
            log.spec_broadcast_capacity() == broadcast_capacity,
    {
        let log = LogState { capacity, broadcast_capacity, buffer: VecDeque::new() };
        assert(log@ =~= Seq::<LogEventView>::empty());
        log
    }

    /// The room that the host gives its live fan-out.
    pub fn broadcast_capacity(&self) -> (room: usize)
        ensures
            room == self.spec_broadcast_capacity(),
    {
        self.broadcast_capacity
    }

    /// Appends an event; a full buffer drops its oldest event first.
    pub fn record(&mut self, event: LogEvent)
        ensures
            final(self)@ == after_record(old(self)@, old(self).capacity(), event@),
            final(self).capacity() == old(self).capacity(),
            final(self).spec_broadcast_capacity() == old(self).spec_broadcast_capacity(),
    {
        let ghost before = self.buffer@;
        if self.buffer.len() >= self.capacity {
            let _ = self.buffer.pop_front();
        }
        let ghost kept = self.buffer@;
        self.buffer.push_back(event);
        proof {
            if before.len() >= self.capacity && before.len() > 0 {
                assert(kept =~= before.drop_first());
                assert(events_view(self.buffer@) =~= events_view(before).drop_first().push(event@));
            } else {
                assert(kept =~= before);
                assert(events_view(self.buffer@) =~= events_view(before).push(event@));
            }
        }
    }

    /// Copies of the latest `limit` events, oldest first.
    pub fn recent(&self, limit: usize) -> (events: Vec<LogEvent>)
        ensures
            events_view(events@) == latest(self@, limit as nat),
    {
        let len = self.buffer.len();
        let start: usize = if limit >= len {
            0
        } else {
            len - limit
        };
        let mut events: Vec<LogEvent> = Vec::new();
        let mut i: usize = start;
        while i < len
            invariant
                start <= i <= len,
                len == self.buffer@.len(),
                events.len() == i - start,
                forall|k: int| 0 <= k < events.len() ==> (#[trigger] events@[k])@ == self.buffer@[
                    start + k
                ]@,
            decreases len - i,
        {
            events.push(self.buffer[i].clone());
            i += 1;
        }
        proof {
            let all = events_view(self.buffer@);
            if limit >= len {
                assert(events_view(events@) =~= all);
            } else {
                assert(events_view(events@) =~= all.skip(all.len() - limit));
            }
        }
        events
    }
}

/// The buffer stays within its bound: once it holds no more than
/// `capacity` events (one, where the capacity is zero), it never holds more.
pub proof fn lemma_record_keeps_bound(
    events: Seq<LogEventView>,
    capacity: nat,
    event: LogEventView,
)
    requires
        events.len() <= capacity || events.len() <= 1,
    ensures
        after_record(events, capacity, event).len() <= capacity || after_record(
            events,
            capacity,
            event,
        ).len() <= 1,
        after_record(events, capacity, event).last() == event,
{
}

} // verus!

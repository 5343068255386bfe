//! Event records and the collector's batch buffer.
//!
//! Produced records accumulate in a buffer; on each flush tick the whole
//! batch is taken out at once and handed to an exporter. The channels,
//! timers and the exporter itself live outside the verified core.

use vstd::prelude::*;

use crate::json::{JsonValue, JsonView};

verus! {

/// The mathematical shape of one event record.
pub ghost struct EventRecordView {
    pub id: int,
    pub kind: Seq<char>,
    pub body: JsonView,
    pub created_at: int,
}

/// One produced event: an opaque identifier, a kind, a structured body
/// and the instant it was produced. Identifiers and instants are assigned
/// by the producing process.
pub struct EventRecord {
    pub id: u128,
    pub kind: String,
    pub body: JsonValue,
    pub created_at: i64,
}

impl View for EventRecord {
    type V = EventRecordView;

    open spec fn view(&self) -> EventRecordView {
        EventRecordView {
            id: self.id as int,
            kind: self.kind@,
            body: self.body@,
            created_at: self.created_at as int,
        }
    }
}

impl EventRecord {
    /// A fresh record with the identifier and instant the producing
    /// process assigned it.
    pub fn new(kind: &str, body: JsonValue, id: u128, created_at: i64) -> (r: EventRecord)
        ensures
            r@ == (EventRecordView { id: id as int, kind: kind@, body: body@, created_at: created_at as int }),
    {
        EventRecord { id, kind: kind.to_owned(), body, created_at }
    }
}

impl Clone for EventRecord {
    /// A cloned record reads exactly as the original.
    fn clone(&self) -> (res: Self)
        ensures
            res@ == self@,
    {
        EventRecord {
            id: self.id,
            kind: self.kind.clone(),
            body: self.body.clone(),
            created_at: self.created_at,
        }
    }
}

/// The views of a list of event records.
pub open spec fn records_view(v: Seq<EventRecord>) -> Seq<EventRecordView> {
    Seq::new(v.len(), |i: int| if 0 <= i < v.len() { v[i]@ } else { arbitrary() })
}

/// One batch of event records on its way to an exporter.
pub struct EventData {
    pub events: Vec<EventRecord>,
}

impl From<Vec<EventRecord>> for EventData {
    /// A batch is exactly the records it was built from.
    fn from(events: Vec<EventRecord>) -> (r: Self)
        ensures
            r == (EventData { events }),
    {
        EventData { events }
    }
}

impl vstd::std_specs::convert::FromSpecImpl<Vec<EventRecord>> for EventData {
    open spec fn obeys_from_spec() -> bool {
        true
    }

    open spec fn from_spec(events: Vec<EventRecord>) -> Self {
        EventData { events }
    }
}

/// The collector's buffer: records accumulate here between flush ticks.
pub struct EventBuffer {
    pub events: Vec<EventRecord>,
}

impl View for EventBuffer {
    type V = Seq<EventRecordView>;

    open spec fn view(&self) -> Seq<EventRecordView> {
        records_view(self.events@)
    }
}

impl EventBuffer {
    /// An empty buffer.
    pub fn new() -> (r: EventBuffer)
        ensures
            r@ == Seq::<EventRecordView>::empty(),
    {
        let r = EventBuffer { events: Vec::new() };
        proof {
            assert(r@ =~= Seq::<EventRecordView>::empty());
        }
        r
    }

    /// Appends one record.
    pub fn push(&mut self, record: EventRecord)
        ensures
            final(self)@ == old(self)@.push(record@),
    {
        self.events.push(record);
        proof {
            assert(final(self)@ =~= old(self)@.push(record@));
        }
    }

    /// How many records are waiting.
    pub fn len(&self) -> (n: usize)
        ensures
            n == self@.len(),
    {
        self.events.len()
    }

    /// Takes the whole batch out at once, leaving the buffer empty: what
    /// the flush tick hands to the exporter.
    pub fn drain(&mut self) -> (r: Vec<EventRecord>)
        ensures
            records_view(r@) == old(self)@,
            final(self)@ == Seq::<EventRecordView>::empty(),
    {
        let mut taken: Vec<EventRecord> = Vec::new();
        core::mem::swap(&mut taken, &mut self.events);
        proof {
            assert(final(self)@ =~= Seq::<EventRecordView>::empty());
        }
        taken
    }
}

} // verus!

//! Change tracking for component storage: an append-only event log per
//! tracked component kind, with one read cursor per subscriber so that
//! several systems can each drain the same stream independently.

use vstd::prelude::*;

verus! {

/// A change to a tracked component kind, carrying the entity index it
/// happened at.
#[derive(Clone, Copy, Debug, PartialEq, Eq, Structural)]
pub enum StoreEvent {
    Inserted(usize),
    Modified(usize),
    Removed(usize),
}

/// An append-only event log with per-subscriber cursors. A reader
/// identifier is an index into `cursors`; reading hands back every event
/// appended since that reader last read, without disturbing the others.
pub struct EventLog {
    pub events: Vec<StoreEvent>,
    pub cursors: Vec<usize>,
}

impl EventLog {
    /// Every cursor points into the log.
    pub open spec fn wf(self) -> bool {
        forall|c: int| 0 <= c < self.cursors@.len() ==> #[trigger] self.cursors@[c] <= self.events@.len()
    }

    pub fn new() -> (r: EventLog)
        ensures
            r.wf(),
            r.events@.len() == 0,
            r.cursors@.len() == 0,
    {
        EventLog { events: Vec::new(), cursors: Vec::new() }
    }

    /// Subscribe a new reader; it will see only events appended from now on.
    pub fn register_reader(&mut self) -> (r: usize)
        requires
            old(self).wf(),
        ensures
            final(self).wf(),
            r == old(self).cursors@.len(),
            final(self).cursors@ == old(self).cursors@.push(old(self).events@.len() as usize),
            final(self).events@ == old(self).events@,
    {
        let r = self.cursors.len();
        let at = self.events.len();
        self.cursors.push(at);
        r
    }

    /// Record an event.
    pub fn push(&mut self, e: StoreEvent)
        requires
            old(self).wf(),
        ensures
            final(self).wf(),
            final(self).events@ == old(self).events@.push(e),
            final(self).cursors@ == old(self).cursors@,
    {
        self.events.push(e);
    }

    /// Drain: every event appended since reader `reader` last read, in
    /// order, advancing only that reader's cursor.
    pub fn read(&mut self, reader: usize) -> (r: Vec<StoreEvent>)
        requires
            old(self).wf(),
            reader < old(self).cursors@.len(),
        ensures
            final(self).wf(),
            r@ == old(self).events@.subrange(
                old(self).cursors@[reader as int] as int,
                old(self).events@.len() as int,
            ),
            final(self).events@ == old(self).events@,
            final(self).cursors@ == old(self).cursors@.update(
                reader as int,
                old(self).events@.len() as usize,
            ),
    {
        let from = self.cursors[reader];
        let to = self.events.len();
        let mut r: Vec<StoreEvent> = Vec::new();
        let mut i = from;
        while i < to
            invariant
                from <= i <= to == self.events@.len(),
                self == old(self),
                r@ == self.events@.subrange(from as int, i as int),
            decreases to - i,
        {
            r.push(self.events[i]);
            proof {
                assert(r@ =~= self.events@.subrange(from as int, i + 1 as int));
            }
            i += 1;
        }
        self.cursors[reader] = to;
        r
    }
}

} // verus!

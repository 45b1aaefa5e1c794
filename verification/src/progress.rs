//! Progress events and the aggregator that counts them.

use vstd::prelude::*;

verus! {

/// What a worker or the orchestrator tells the progress aggregator.
#[derive(Clone, Copy, Debug, PartialEq, Eq, Structural)]
pub enum ProgressEvent {
    /// One candidate was processed, whatever came of it.
    Increment,
    /// One candidate resolved.
    Found,
    /// All workers are done.
    Finish,
}

/// What the aggregator has counted so far.
pub struct Counters {
    pub processed: nat,
    pub found: nat,
    pub finished: bool,
}

/// What the renderer is to do after an event.
#[derive(Clone, Copy, Debug, PartialEq, Eq, Structural)]
pub enum Display {
    /// Move the progress forward by one.
    Advance,
    /// Show this number as the count of names found.
    ShowFound(u64),
    /// Show this number as the final count of names found, end the display
    /// and close the progress channel.
    Close(u64),
}

/// The counters before any event.
pub open spec fn initial_counters() -> Counters {
    Counters { processed: 0, found: 0, finished: false }
}

/// The counters after one more event. Once finished, nothing counts any more.
pub open spec fn counted(counters: Counters, event: ProgressEvent) -> Counters {
    if counters.finished {
        counters
    } else {
        match event {
            ProgressEvent::Increment => Counters { processed: counters.processed + 1, ..counters },
            ProgressEvent::Found => Counters { found: counters.found + 1, ..counters },
            ProgressEvent::Finish => Counters { finished: true, ..counters },
        }
    }
}

/// The counters after a sequence of events, starting from `counters`.
pub open spec fn tally_from(counters: Counters, events: Seq<ProgressEvent>) -> Counters
    decreases events.len(),
{
    if events.len() == 0 {
        counters
    } else {
        counted(tally_from(counters, events.drop_last()), events.last())
    }
}

/// The counters after a sequence of events, starting from nothing.
pub open spec fn tally(events: Seq<ProgressEvent>) -> Counters {
    tally_from(initial_counters(), events)
}

/// What the renderer is to do after an event that met the counters as
/// `before`; nothing once the aggregator had finished.
pub open spec fn display_for(before: Counters, event: ProgressEvent) -> Option<Display> {
    if before.finished {
        None
    } else {
        match event {
            ProgressEvent::Increment => Some(Display::Advance),
            ProgressEvent::Found => Some(Display::ShowFound((before.found + 1) as u64)),
            ProgressEvent::Finish => Some(Display::Close(before.found as u64)),
        }
    }
}

/// How often an event occurs in a sequence.
pub open spec fn occurrences(events: Seq<ProgressEvent>, event: ProgressEvent) -> nat {
    events.to_multiset().count(event)
}

/// The single consumer of progress events. It owns both counters, so no lock
/// guards them.
#[derive(Debug)]
pub struct ProgressAggregator {
    processed_count: u64,
    found_count: u64,
    finished: bool,
}

impl View for ProgressAggregator {
    type V = Counters;

    closed spec fn view(&self) -> Counters {
        Counters {
            processed: self.processed_count as nat,
            found: self.found_count as nat,
            finished: self.finished,
        }
    }
}

impl ProgressAggregator {
    /// An aggregator that has seen no event.
    pub fn new() -> (aggregator: ProgressAggregator)
        ensures
            aggregator@ == initial_counters(),
    {
        ProgressAggregator { processed_count: 0, found_count: 0, finished: false }
    }

    /// How many candidates were processed.
    pub fn processed_count(&self) -> (count: u64)
        ensures
            count == self@.processed,
    {
        self.processed_count
    }

    /// How many candidates resolved.
    pub fn found_count(&self) -> (count: u64)
        ensures
            count == self@.found,
    {
        self.found_count
    }

    /// Whether a `Finish` event has been taken.
    pub fn is_finished(&self) -> (finished: bool)
        ensures
            finished == self@.finished,
    {
        self.finished
    }

    /// Whether one more event fits into the counters.
    pub fn has_room(&self) -> (room: bool)
        ensures
            room == (self@.processed < u64::MAX && self@.found < u64::MAX),
    {
        self.processed_count < u64::MAX && self.found_count < u64::MAX
    }

    /// Takes one event: `Increment` moves the processed count by one, `Found`
    /// the found count by one and neither moves the other, `Finish` ends the
    /// aggregator. Says what the renderer is to do, or `None` once the
    /// aggregator had finished, when the event changes nothing.
    pub fn apply(&mut self, event: ProgressEvent) -> (display: Option<Display>)
        requires
            old(self)@.processed < u64::MAX,
            old(self)@.found < u64::MAX,
        ensures
            final(self)@ == counted(old(self)@, event),
            display == display_for(old(self)@, event),
    {
        if self.finished {
            return None;
        }
        match event {
            ProgressEvent::Increment => {
                self.processed_count = self.processed_count + 1;
                Some(Display::Advance)
            },
            ProgressEvent::Found => {
                self.found_count = self.found_count + 1;
                Some(Display::ShowFound(self.found_count))
            },
            ProgressEvent::Finish => {
                self.finished = true;
                Some(Display::Close(self.found_count))
            },
        }
    }
}

/// While no `Finish` is among the events, nothing is finished and nothing
/// counted so far is lost.
pub proof fn lemma_tally_counts(counters: Counters, events: Seq<ProgressEvent>)
    requires
        !counters.finished,
        occurrences(events, ProgressEvent::Finish) == 0,
    ensures
        tally_from(counters, events).processed == counters.processed + occurrences(
            events,
            ProgressEvent::Increment,
        ),
        tally_from(counters, events).found == counters.found + occurrences(
            events,
            ProgressEvent::Found,
        ),
        !tally_from(counters, events).finished,
    decreases events.len(),
{
    broadcast use vstd::seq_lib::group_to_multiset_ensures;

    if events.len() > 0 {
        let front = events.drop_last();
        assert(events == front.push(events.last()));
        assert(events.to_multiset() == front.to_multiset().insert(events.last()));
        lemma_tally_counts(counters, front);
    }
}

/// The counters depend on how many events of each kind came, not on their
/// order: after any sequence of `Increment` and `Found` events followed by
/// `Finish`, the processed count is the number of `Increment` events and the
/// found count the number of `Found` events.
pub proof fn lemma_tally_at_finish(events: Seq<ProgressEvent>)
    requires
        occurrences(events, ProgressEvent::Finish) == 0,
    ensures
        tally(events.push(ProgressEvent::Finish)).finished,
        tally(events.push(ProgressEvent::Finish)).processed == occurrences(
            events,
            ProgressEvent::Increment,
        ),
        tally(events.push(ProgressEvent::Finish)).found == occurrences(events, ProgressEvent::Found),
{
    lemma_tally_counts(initial_counters(), events);
    assert(events.push(ProgressEvent::Finish).drop_last() == events);
}

} // verus!

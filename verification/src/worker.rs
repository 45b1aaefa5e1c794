//! One worker of the pool, as a state machine: it asks the queue for a
//! candidate, has it resolved, records the outcome, and starts over until the
//! queue has ended.

use vstd::prelude::*;

use crate::model::{as_addresses, subdomain_views, to_addresses, Ip, Subdomain, SubdomainView};
use crate::progress::ProgressEvent;

verus! {

/// What a worker is waiting for. A running worker is in `Dequeue` or in
/// `Resolve`; in `Draining` it has left its loop and holds the buffer for the
/// pool, and `Worker::into_buffer` ends it.
#[derive(Clone, Copy, Debug, PartialEq, Eq, Structural)]
pub enum Phase {
    /// Waiting for the queue.
    Dequeue,
    /// Waiting for the resolver's word on the pending candidate.
    Resolve,
    /// The queue has ended.
    Draining,
}

/// What happened outside the worker.
#[derive(Clone, Debug, PartialEq, Eq)]
pub enum WorkerEvent {
    /// The queue handed out this candidate.
    Candidate(String),
    /// The lookup of the pending candidate ended, with its addresses or
    /// without any.
    Resolved(Option<Vec<Ip>>),
    /// The queue is closed and empty.
    EndOfStream,
}

/// What the worker wants done next.
#[derive(Clone, Debug, PartialEq, Eq)]
pub enum WorkerAction {
    /// Look this name up, then come back with `Resolved`.
    Resolve(String),
    /// Send these progress events in this order, then ask the queue again.
    Report(Vec<ProgressEvent>),
    /// Hand the buffer to the pool.
    Return,
}

/// A worker: its phase, the candidate it is resolving, and its private
/// buffer of hits in the order they were found.
#[derive(Debug)]
pub struct Worker {
    phase: Phase,
    pending: String,
    buffer: Vec<Subdomain>,
}

/// What a worker is waiting for, with the candidate where there is one.
pub enum PhaseView {
    Dequeue,
    Resolve(Seq<char>),
    Draining,
}

/// What a worker is.
pub struct WorkerView {
    pub phase: PhaseView,
    pub buffer: Seq<SubdomainView>,
}

/// What a `WorkerEvent` is.
pub enum EventView {
    Candidate(Seq<char>),
    Resolved(Option<Seq<Ip>>),
    EndOfStream,
}

/// What a `WorkerAction` is.
pub enum ActionView {
    Resolve(Seq<char>),
    Report(Seq<ProgressEvent>),
    Return,
}

impl View for Worker {
    type V = WorkerView;

    closed spec fn view(&self) -> WorkerView {
        WorkerView {
            phase: match self.phase {
                Phase::Dequeue => PhaseView::Dequeue,
                Phase::Resolve => PhaseView::Resolve(self.pending@),
                Phase::Draining => PhaseView::Draining,
            },
            buffer: subdomain_views(self.buffer@),
        }
    }
}

impl View for WorkerEvent {
    type V = EventView;

    open spec fn view(&self) -> EventView {
        match *self {
            WorkerEvent::Candidate(host) => EventView::Candidate(host@),
            WorkerEvent::Resolved(Some(ips)) => EventView::Resolved(Some(ips@)),
            WorkerEvent::Resolved(None) => EventView::Resolved(None),
            WorkerEvent::EndOfStream => EventView::EndOfStream,
        }
    }
}

impl View for WorkerAction {
    type V = ActionView;

    open spec fn view(&self) -> ActionView {
        match *self {
            WorkerAction::Resolve(host) => ActionView::Resolve(host@),
            WorkerAction::Report(events) => ActionView::Report(events@),
            WorkerAction::Return => ActionView::Return,
        }
    }
}

/// A worker that has done nothing yet.
pub open spec fn initial_worker() -> WorkerView {
    WorkerView { phase: PhaseView::Dequeue, buffer: Seq::empty() }
}

/// Whether a lookup is a hit: it gave at least one address.
pub open spec fn is_hit(resolution: Option<Seq<Ip>>) -> bool {
    resolution is Some && resolution->Some_0.len() > 0
}

/// The progress events for one processed candidate: `Found` on a hit, and
/// `Increment` in every case, after it.
pub open spec fn progress_of(resolution: Option<Seq<Ip>>) -> Seq<ProgressEvent> {
    if is_hit(resolution) {
        seq![ProgressEvent::Found, ProgressEvent::Increment]
    } else {
        seq![ProgressEvent::Increment]
    }
}

/// The buffer after one processed candidate: a hit is appended with its
/// addresses, a miss leaves no trace.
pub open spec fn recorded(
    buffer: Seq<SubdomainView>,
    host: Seq<char>,
    resolution: Option<Seq<Ip>>,
) -> Seq<SubdomainView> {
    if is_hit(resolution) {
        buffer.push(SubdomainView { name: host, addresses: as_addresses(resolution->Some_0) })
    } else {
        buffer
    }
}

/// Whether an event fits what the worker is waiting for.
pub open spec fn accepts(worker: WorkerView, event: EventView) -> bool {
    match (worker.phase, event) {
        (PhaseView::Dequeue, EventView::Candidate(_)) => true,
        (PhaseView::Dequeue, EventView::EndOfStream) => true,
        (PhaseView::Resolve(_), EventView::Resolved(_)) => true,
        _ => false,
    }
}

/// The worker after an event; an event that does not fit changes nothing.
pub open spec fn next(worker: WorkerView, event: EventView) -> WorkerView {
    match (worker.phase, event) {
        (PhaseView::Dequeue, EventView::Candidate(host)) => WorkerView {
            phase: PhaseView::Resolve(host),
            ..worker
        },
        (PhaseView::Dequeue, EventView::EndOfStream) => WorkerView {
            phase: PhaseView::Draining,
            ..worker
        },
        (PhaseView::Resolve(host), EventView::Resolved(resolution)) => WorkerView {
            phase: PhaseView::Dequeue,
            buffer: recorded(worker.buffer, host, resolution),
        },
        _ => worker,
    }
}

/// What the worker wants done after an event, if the event fits.
pub open spec fn action(worker: WorkerView, event: EventView) -> Option<ActionView> {
    match (worker.phase, event) {
        (PhaseView::Dequeue, EventView::Candidate(host)) => Some(ActionView::Resolve(host)),
        (PhaseView::Dequeue, EventView::EndOfStream) => Some(ActionView::Return),
        (PhaseView::Resolve(_), EventView::Resolved(resolution)) => Some(
            ActionView::Report(progress_of(resolution)),
        ),
        _ => None,
    }
}

/// Whether an action is what a specification of it says, or both are absent.
pub open spec fn same_action(got: Option<WorkerAction>, expected: Option<ActionView>) -> bool {
    match (got, expected) {
        (Some(a), Some(b)) => a@ == b,
        (None, None) => true,
        _ => false,
    }
}

impl Worker {
    /// A worker waiting for the queue, with an empty buffer.
    pub fn new() -> (worker: Worker)
        ensures
            worker@ == initial_worker(),
    {
        let worker = Worker { phase: Phase::Dequeue, pending: String::new(), buffer: Vec::new() };
        assert(worker@.buffer =~= Seq::empty());
        worker
    }

    /// What the worker is waiting for.
    pub fn phase(&self) -> (phase: Phase)
        ensures
            match phase {
                Phase::Dequeue => self@.phase is Dequeue,
                Phase::Resolve => self@.phase is Resolve,
                Phase::Draining => self@.phase is Draining,
            },
    {
        self.phase
    }

    /// How many hits the buffer holds.
    pub fn found(&self) -> (count: usize)
        ensures
            count == self@.buffer.len(),
    {
        self.buffer.len()
    }

    /// Takes one event and says what to do next. A candidate is to be
    /// resolved; a resolution is recorded (a hit goes to the end of the
    /// buffer) and reported, `Increment` once in every case and `Found`
    /// before it on a hit; the end of the queue makes the worker drain. An
    /// event that does not fit the phase is answered with `None` and changes
    /// nothing.
    pub fn step(self, event: WorkerEvent) -> (out: (Worker, Option<WorkerAction>))
        ensures
            out.0@ == next(self@, event@),
            same_action(out.1, action(self@, event@)),
            out.1 is Some <==> accepts(self@, event@),
    {
        let Worker { phase, pending, buffer } = self;
        match phase {
            Phase::Dequeue => match event {
                WorkerEvent::Candidate(host) => {
                    let pending = host.clone();
                    (Worker { phase: Phase::Resolve, pending, buffer }, Some(WorkerAction::Resolve(host)))
                },
                WorkerEvent::EndOfStream => (
                    Worker { phase: Phase::Draining, pending, buffer },
                    Some(WorkerAction::Return),
                ),
                WorkerEvent::Resolved(_) => (Worker { phase, pending, buffer }, None),
            },
            Phase::Resolve => match event {
                WorkerEvent::Resolved(resolution) => {
                    let ghost before = subdomain_views(buffer@);
                    let ghost host = pending@;
                    let mut buffer = buffer;
                    let mut events: Vec<ProgressEvent> = Vec::new();
                    match resolution {
                        Some(ips) => {
                            if ips.len() > 0 {
                                let ghost found = ips@;
                                events.push(ProgressEvent::Found);
                                buffer.push(Subdomain { name: pending, addresses: to_addresses(ips) });
                                assert(subdomain_views(buffer@) =~= before.push(
                                    SubdomainView { name: host, addresses: as_addresses(found) },
                                ));
                            }
                        },
                        None => {},
                    }
                    events.push(ProgressEvent::Increment);
                    assert(events@ =~= progress_of(event@->Resolved_0));
                    (
                        Worker { phase: Phase::Dequeue, pending: String::new(), buffer },
                        Some(WorkerAction::Report(events)),
                    )
                },
                _ => (Worker { phase, pending, buffer }, None),
            },
            Phase::Draining => (Worker { phase, pending, buffer }, None),
        }
    }

    /// Ends the worker and hands out its buffer, the hits in the order they
    /// were found.
    pub fn into_buffer(self) -> (buffer: Vec<Subdomain>)
        ensures
            subdomain_views(buffer@) == self@.buffer,
    {
        self.buffer
    }
}

} // verus!

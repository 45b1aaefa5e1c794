//! What holds of a whole run: every worker's history taken together, the
//! progress events they send, and the report that is merged from them.

use vstd::prelude::*;

use crate::model::{names, Ip, SubdomainView};
use crate::progress::{occurrences, tally, ProgressEvent};
use crate::queue::{candidates_of, lemma_candidates_distinct, texts};
use crate::report::assembled;
use crate::worker::{
    action, initial_worker, next, ActionView, EventView, PhaseView, WorkerView,
};

verus! {

/// What a worker has come to after a history of events.
pub struct Trace {
    /// The worker itself.
    pub worker: WorkerView,
    /// The progress events it asked to have sent, in order.
    pub progress: Seq<ProgressEvent>,
    /// The candidates it took from the queue, in order.
    pub taken: Seq<Seq<char>>,
}

/// The progress events that an action asks to have sent.
pub open spec fn reported(action: Option<ActionView>) -> Seq<ProgressEvent> {
    match action {
        Some(ActionView::Report(events)) => events,
        _ => Seq::empty(),
    }
}

/// The candidate that a worker takes with an event, if it takes one.
pub open spec fn taken_with(worker: WorkerView, event: EventView) -> Seq<Seq<char>> {
    match (worker.phase, event) {
        (PhaseView::Dequeue, EventView::Candidate(host)) => seq![host],
        _ => Seq::empty(),
    }
}

/// A new worker's trace after a history of events, each handled by
/// `Worker::step`.
pub open spec fn run(events: Seq<EventView>) -> Trace
    decreases events.len(),
{
    if events.len() == 0 {
        Trace { worker: initial_worker(), progress: Seq::empty(), taken: Seq::empty() }
    } else {
        let before = run(events.drop_last());
        Trace {
            worker: next(before.worker, events.last()),
            progress: before.progress + reported(action(before.worker, events.last())),
            taken: before.taken + taken_with(before.worker, events.last()),
        }
    }
}

/// The names a worker holds: those in its buffer, and the candidate it is
/// resolving.
pub open spec fn held(worker: WorkerView) -> Seq<Seq<char>> {
    match worker.phase {
        PhaseView::Resolve(host) => names(worker.buffer).push(host),
        _ => names(worker.buffer),
    }
}

/// How many candidates a worker has taken and not yet reported.
pub open spec fn unreported(worker: WorkerView) -> nat {
    if worker.phase is Resolve {
        1
    } else {
        0
    }
}

/// The progress events of all workers, worker by worker.
pub open spec fn pool_progress(runs: Seq<Seq<EventView>>) -> Seq<ProgressEvent> {
    runs.map_values(|events: Seq<EventView>| run(events).progress).flatten()
}

/// The candidates that the workers took from the queue, worker by worker.
pub open spec fn pool_taken(runs: Seq<Seq<EventView>>) -> Seq<Seq<char>> {
    runs.map_values(|events: Seq<EventView>| run(events).taken).flatten()
}

/// The buffers of the workers, as `merge_buffers` receives them.
pub open spec fn pool_buffers(runs: Seq<Seq<EventView>>) -> Seq<Seq<SubdomainView>> {
    runs.map_values(|events: Seq<EventView>| run(events).worker.buffer)
}

/// Whether every worker has seen the end of the queue.
pub open spec fn all_drained(runs: Seq<Seq<EventView>>) -> bool {
    forall|i: int| 0 <= i < runs.len() ==> (#[trigger] run(runs[i])).worker.phase is Draining
}

proof fn lemma_count_concat<A>(a: Seq<A>, b: Seq<A>, x: A)
    ensures
        (a + b).to_multiset().count(x) == a.to_multiset().count(x) + b.to_multiset().count(x),
{
    broadcast use vstd::multiset::group_multiset_axioms;

    vstd::seq_lib::lemma_multiset_commutative(a, b);
}

proof fn lemma_count_push<A>(s: Seq<A>, a: A, x: A)
    ensures
        s.push(a).to_multiset().count(x) == s.to_multiset().count(x) + if a == x {
            1nat
        } else {
            0nat
        },
{
    broadcast use vstd::multiset::group_multiset_axioms;

    vstd::seq_lib::to_multiset_build(s, a);
}

proof fn lemma_count_empty<A>(x: A)
    ensures
        Seq::<A>::empty().to_multiset().count(x) == 0,
{
    broadcast use vstd::multiset::group_multiset_axioms;
    broadcast use vstd::seq_lib::group_to_multiset_ensures;

    assert(Seq::<A>::empty().to_multiset().len() == 0);
    if Seq::<A>::empty().to_multiset().count(x) > 0 {
        assert(Seq::<A>::empty().contains(x));
    }
}

proof fn lemma_reported_counts(worker: WorkerView, event: EventView)
    ensures
        occurrences(reported(action(worker, event)), ProgressEvent::Finish) == 0,
        occurrences(reported(action(worker, event)), ProgressEvent::Found) + worker.buffer.len()
            == next(worker, event).buffer.len(),
        occurrences(reported(action(worker, event)), ProgressEvent::Increment) + unreported(
            next(worker, event),
        ) == unreported(worker) + taken_with(worker, event).len(),
{
    let sent = reported(action(worker, event));
    let none = Seq::<ProgressEvent>::empty();
    lemma_count_empty(ProgressEvent::Finish);
    lemma_count_empty(ProgressEvent::Found);
    lemma_count_empty(ProgressEvent::Increment);
    if sent.len() == 1 {
        assert(sent =~= none.push(ProgressEvent::Increment));
        lemma_count_push(none, ProgressEvent::Increment, ProgressEvent::Finish);
        lemma_count_push(none, ProgressEvent::Increment, ProgressEvent::Found);
        lemma_count_push(none, ProgressEvent::Increment, ProgressEvent::Increment);
    } else if sent.len() == 2 {
        let first = none.push(ProgressEvent::Found);
        assert(sent =~= first.push(ProgressEvent::Increment));
        lemma_count_push(none, ProgressEvent::Found, ProgressEvent::Finish);
        lemma_count_push(none, ProgressEvent::Found, ProgressEvent::Found);
        lemma_count_push(none, ProgressEvent::Found, ProgressEvent::Increment);
        lemma_count_push(first, ProgressEvent::Increment, ProgressEvent::Finish);
        lemma_count_push(first, ProgressEvent::Increment, ProgressEvent::Found);
        lemma_count_push(first, ProgressEvent::Increment, ProgressEvent::Increment);
    } else {
        assert(sent =~= none);
    }
}

proof fn lemma_held_step(worker: WorkerView, event: EventView, name: Seq<char>)
    ensures
        held(next(worker, event)).to_multiset().count(name) <= held(worker).to_multiset().count(
            name,
        ) + taken_with(worker, event).to_multiset().count(name),
{
    let after = next(worker, event);
    let kept = names(worker.buffer);
    lemma_count_empty(name);
    match (worker.phase, event) {
        (PhaseView::Dequeue, EventView::Candidate(host)) => {
            assert(taken_with(worker, event) =~= Seq::<Seq<char>>::empty().push(host));
            lemma_count_push(Seq::<Seq<char>>::empty(), host, name);
            lemma_count_push(kept, host, name);
        },
        (PhaseView::Resolve(host), EventView::Resolved(resolution)) => {
            lemma_count_push(kept, host, name);
            if after.buffer.len() > worker.buffer.len() {
                assert(names(after.buffer) =~= kept.push(host));
            }
        },
        _ => {},
    }
}

/// A worker's trace, whatever its history: it never sends `Finish`; it has
/// sent `Found` once for each hit in its buffer and `Increment` once for each
/// candidate it took, but for the one it is still resolving; it holds no name
/// more often than it took it; and no hit in its buffer is without an
/// address.
pub proof fn lemma_worker_trace(events: Seq<EventView>)
    ensures
        occurrences(run(events).progress, ProgressEvent::Finish) == 0,
        occurrences(run(events).progress, ProgressEvent::Found) == run(events).worker.buffer.len(),
        occurrences(run(events).progress, ProgressEvent::Increment) + unreported(run(events).worker)
            == run(events).taken.len(),
        held(run(events).worker).to_multiset().subset_of(run(events).taken.to_multiset()),
        forall|i: int|
            0 <= i < run(events).worker.buffer.len() ==> (
            #[trigger] run(events).worker.buffer[i]).addresses.len() > 0,
    decreases events.len(),
{
    if events.len() == 0 {
        lemma_count_empty(ProgressEvent::Finish);
        lemma_count_empty(ProgressEvent::Found);
        lemma_count_empty(ProgressEvent::Increment);
        assert(held(run(events).worker) =~= Seq::<Seq<char>>::empty());
        assert forall|name: Seq<char>|
            held(run(events).worker).to_multiset().count(name) <= run(
                events,
            ).taken.to_multiset().count(name) by {
            lemma_count_empty(name);
        }
    } else {
        let before = run(events.drop_last());
        let event = events.last();
        let sent = reported(action(before.worker, event));
        lemma_worker_trace(events.drop_last());
        lemma_reported_counts(before.worker, event);
        lemma_count_concat(before.progress, sent, ProgressEvent::Finish);
        lemma_count_concat(before.progress, sent, ProgressEvent::Found);
        lemma_count_concat(before.progress, sent, ProgressEvent::Increment);
        assert forall|name: Seq<char>|
            held(run(events).worker).to_multiset().count(name) <= run(
                events,
            ).taken.to_multiset().count(name) by {
            lemma_held_step(before.worker, event, name);
            lemma_count_concat(before.taken, taken_with(before.worker, event), name);
        }
    }
}

proof fn lemma_flatten_last<A>(runs: Seq<Seq<EventView>>, part: spec_fn(Seq<EventView>) -> Seq<A>)
    requires
        runs.len() > 0,
    ensures
        runs.map_values(part).flatten() == runs.drop_last().map_values(part).flatten() + part(
            runs.last(),
        ),
{
    let front = runs.drop_last().map_values(part);
    assert(runs.map_values(part) =~= front.push(part(runs.last())));
    front.lemma_flatten_push(part(runs.last()));
}

proof fn lemma_names_concat(a: Seq<SubdomainView>, b: Seq<SubdomainView>)
    ensures
        names(a + b) == names(a) + names(b),
{
    assert(names(a + b) =~= names(a) + names(b));
}

proof fn lemma_pool(runs: Seq<Seq<EventView>>)
    ensures
        occurrences(pool_progress(runs), ProgressEvent::Finish) == 0,
        occurrences(pool_progress(runs), ProgressEvent::Found) == pool_buffers(
            runs,
        ).flatten().len(),
        all_drained(runs) ==> occurrences(pool_progress(runs), ProgressEvent::Increment)
            == pool_taken(runs).len(),
        names(pool_buffers(runs).flatten()).to_multiset().subset_of(
            pool_taken(runs).to_multiset(),
        ),
    decreases runs.len(),
{
    let progress = |events: Seq<EventView>| run(events).progress;
    let taken = |events: Seq<EventView>| run(events).taken;
    let buffer = |events: Seq<EventView>| run(events).worker.buffer;
    if runs.len() == 0 {
        lemma_count_empty(ProgressEvent::Finish);
        lemma_count_empty(ProgressEvent::Found);
        lemma_count_empty(ProgressEvent::Increment);
        assert(pool_progress(runs) =~= Seq::<ProgressEvent>::empty());
        assert(pool_taken(runs) =~= Seq::<Seq<char>>::empty());
        assert(pool_buffers(runs).flatten() =~= Seq::<SubdomainView>::empty());
        assert(names(pool_buffers(runs).flatten()) =~= Seq::<Seq<char>>::empty());
        assert forall|name: Seq<char>|
            names(pool_buffers(runs).flatten()).to_multiset().count(name) <= pool_taken(
                runs,
            ).to_multiset().count(name) by {
            lemma_count_empty(name);
        }
    } else {
        let front = runs.drop_last();
        let last = run(runs.last());
        lemma_pool(front);
        lemma_worker_trace(runs.last());
        lemma_flatten_last(runs, progress);
        lemma_flatten_last(runs, taken);
        lemma_flatten_last(runs, buffer);
        lemma_count_concat(pool_progress(front), last.progress, ProgressEvent::Finish);
        lemma_count_concat(pool_progress(front), last.progress, ProgressEvent::Found);
        lemma_count_concat(pool_progress(front), last.progress, ProgressEvent::Increment);
        if all_drained(runs) {
            assert(run(runs[runs.len() - 1]).worker.phase is Draining);
            assert forall|i: int| 0 <= i < front.len() implies (#[trigger] run(
                front[i],
            )).worker.phase is Draining by {
                assert(front[i] == runs[i]);
            }
        }
        lemma_names_concat(pool_buffers(front).flatten(), last.worker.buffer);
        assert forall|name: Seq<char>|
            names(pool_buffers(runs).flatten()).to_multiset().count(name) <= pool_taken(
                runs,
            ).to_multiset().count(name) by {
            lemma_count_concat(
                names(pool_buffers(front).flatten()),
                names(last.worker.buffer),
                name,
            );
            lemma_count_concat(pool_taken(front), last.taken, name);
            assert(names(last.worker.buffer).to_multiset().count(name) <= held(
                last.worker,
            ).to_multiset().count(name)) by {
                if let PhaseView::Resolve(host) = last.worker.phase {
                    lemma_count_push(names(last.worker.buffer), host, name);
                }
            }
        }
    }
}

/// A worker never drops a hit: whatever events follow, its buffer still
/// starts with what it held before, in the same order.
pub proof fn lemma_buffer_only_grows(events: Seq<EventView>, more: Seq<EventView>)
    ensures
        run(events).worker.buffer.is_prefix_of(run(events + more).worker.buffer),
    decreases more.len(),
{
    if more.len() == 0 {
        assert(events + more =~= events);
    } else {
        let all = events + more;
        assert(all.drop_last() =~= events + more.drop_last());
        assert(all.last() == more.last());
        lemma_buffer_only_grows(events, more.drop_last());
    }
}

/// Every candidate is counted once. Let each worker run through any history
/// of events and reach the end of the queue, and let the queue have handed
/// each candidate to exactly one of them, once. Then the workers ask for as
/// many `Increment` events as there are candidates, whatever the number of
/// workers; and in whatever order these events and the `Found` events reach
/// the aggregator, once `Finish` has followed them its processed count is the
/// number of candidates.
pub proof fn lemma_processed_count_is_candidate_count(
    candidates: Seq<Seq<char>>,
    runs: Seq<Seq<EventView>>,
    delivered: Seq<ProgressEvent>,
)
    requires
        all_drained(runs),
        pool_taken(runs).to_multiset() == candidates.to_multiset(),
        delivered.to_multiset() == pool_progress(runs).to_multiset(),
    ensures
        occurrences(pool_progress(runs), ProgressEvent::Increment) == candidates.len(),
        tally(delivered.push(ProgressEvent::Finish)).finished,
        tally(delivered.push(ProgressEvent::Finish)).processed == candidates.len(),
{
    lemma_pool(runs);
    vstd::seq_lib::to_multiset_len(pool_taken(runs));
    vstd::seq_lib::to_multiset_len(candidates);
    crate::progress::lemma_tally_at_finish(delivered);
}

/// The found count at the end is the size of the report. Let each worker run
/// through any history of events, and let the report be assembled from their
/// merged buffers. In whatever order the workers' progress events reach the
/// aggregator, once `Finish` has followed them its found count is the number
/// of subdomains in the report, whatever came of the root's own lookup.
pub proof fn lemma_found_count_is_report_size(
    runs: Seq<Seq<EventView>>,
    delivered: Seq<ProgressEvent>,
    target: Seq<char>,
    root: Option<Seq<Ip>>,
)
    requires
        delivered.to_multiset() == pool_progress(runs).to_multiset(),
    ensures
        tally(delivered.push(ProgressEvent::Finish)).finished,
        tally(delivered.push(ProgressEvent::Finish)).found == assembled(
            target,
            pool_buffers(runs).flatten(),
            root,
        ).subdomains.len(),
{
    lemma_pool(runs);
    crate::progress::lemma_tally_at_finish(delivered);
}

/// No name is reported twice. Let the wordlist hold no line twice, and let
/// the queue have handed no candidate out more often than it was put in.
/// Then, whatever the workers' histories, the report assembled from their
/// merged buffers holds no two subdomains of the same name.
pub proof fn lemma_report_names_distinct(
    words: Seq<String>,
    target: Seq<char>,
    runs: Seq<Seq<EventView>>,
    root: Option<Seq<Ip>>,
)
    requires
        texts(words).no_duplicates(),
        pool_taken(runs).to_multiset().subset_of(candidates_of(words, target).to_multiset()),
    ensures
        names(assembled(target, pool_buffers(runs).flatten(), root).subdomains).no_duplicates(),
{
    broadcast use vstd::multiset::group_multiset_axioms;

    let candidates = candidates_of(words, target);
    let reported = names(pool_buffers(runs).flatten());
    lemma_candidates_distinct(words, target);
    candidates.lemma_multiset_has_no_duplicates();
    lemma_pool(runs);
    assert forall|name: Seq<char>| reported.to_multiset().contains(name) implies reported.to_multiset().count(name) == 1 by {
        assert(reported.to_multiset().count(name) <= pool_taken(runs).to_multiset().count(name));
        assert(pool_taken(runs).to_multiset().count(name) <= candidates.to_multiset().count(name));
        assert(candidates.to_multiset().contains(name));
    }
    reported.lemma_multiset_has_no_duplicates_conv();
}

/// No subdomain is reported without an address: a worker's buffer never
/// holds one, whatever the worker's history, and so neither do the merged
/// buffers that the report is assembled from.
pub proof fn lemma_report_entries_have_addresses(runs: Seq<Seq<EventView>>)
    ensures
        forall|i: int|
            0 <= i < pool_buffers(runs).flatten().len() ==> (#[trigger] pool_buffers(
                runs,
            ).flatten()[i]).addresses.len() > 0,
    decreases runs.len(),
{
    let buffer = |events: Seq<EventView>| run(events).worker.buffer;
    if runs.len() == 0 {
        assert(pool_buffers(runs).flatten() =~= Seq::<SubdomainView>::empty());
    } else {
        let front = pool_buffers(runs.drop_last()).flatten();
        let last = run(runs.last()).worker.buffer;
        lemma_report_entries_have_addresses(runs.drop_last());
        lemma_worker_trace(runs.last());
        lemma_flatten_last(runs, buffer);
        assert forall|i: int| 0 <= i < (front + last).len() implies (#[trigger] (front
            + last)[i]).addresses.len() > 0 by {
            if i < front.len() {
                assert((front + last)[i] == front[i]);
            } else {
                assert((front + last)[i] == last[i - front.len()]);
            }
        }
    }
}

} // verus!

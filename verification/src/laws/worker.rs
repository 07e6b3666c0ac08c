//! What a worker keeps to, whatever happens to it and in whatever order.

use crate::channel::Message;
use crate::entry::EntryView;
use crate::worker::{Ended, WorkerView, INTAKE_LIMIT};
use vstd::prelude::*;

verus! {

/// One thing that happens to a worker.
pub enum Event<H, P, E> {
    /// `Worker::begin_round`.
    BeginRound,
    /// `Worker::deliver`.
    Deliver(Message),
    /// `Worker::build`.
    Build(u64, Option<EntryView<H, P, E>>),
    /// `Worker::wake`.
    Wake(u64, bool, u128),
    /// `Worker::next`.
    Next,
    /// A circuit is changed through `Worker::entry_mut`.
    Change(u64, EntryView<H, P, E>),
    /// `Worker::finish`.
    Finish(u64, Ended<E>, u128, u128),
    /// `Worker::close`.
    Close,
}

impl<H, P, E> Event<H, P, E> {
    /// The one circuit that this is about, in a worker of which `due` is the next to run.
    pub open spec fn about(self, due: Option<u64>) -> Option<u64> {
        match self {
            Event::BeginRound => None,
            Event::Deliver(Message::Create(id)) => Some(id),
            Event::Deliver(Message::Wake(id)) => Some(id),
            Event::Deliver(Message::Remove(id, _)) => Some(id),
            Event::Deliver(Message::Shutdown) => None,
            Event::Build(id, _) => Some(id),
            Event::Wake(id, _, _) => Some(id),
            Event::Next => due,
            Event::Change(id, _) => Some(id),
            Event::Finish(id, _, _, _) => Some(id),
            Event::Close => None,
        }
    }
}

impl<H, P, E> WorkerView<H, P, E> {
    /// The worker after an event.
    pub open spec fn after(self, event: Event<H, P, E>) -> Self {
        match event {
            Event::BeginRound => WorkerView { taken: 0, ..self },
            Event::Deliver(message) => self.delivering(message).0,
            Event::Build(id, Some(entry)) => WorkerView {
                entries: self.entries.insert(id, entry),
                ..self
            },
            Event::Build(_, None) => self,
            Event::Wake(id, stopped, now) => self.waking(id, stopped, now),
            Event::Next => self.advancing(),
            Event::Change(id, entry) => WorkerView {
                entries: self.entries.insert(id, entry),
                ..self
            },
            Event::Finish(id, ended, spent, now) => self.finished(id, ended, spent, now),
            Event::Close => WorkerView { entries: Map::empty(), ..self },
        }
    }

    /// The event is one that a pool's threads bring about: messages are taken up to the limit, a
    /// circuit is built under a number that the worker has not seen, a change leaves alone whether
    /// it is in line, and a turn that ends is that of a circuit that was taken out of the line for
    /// it.
    pub open spec fn expects(self, event: Event<H, P, E>) -> bool {
        match event {
            Event::Deliver(_) => self.taken < INTAKE_LIMIT,
            Event::Build(id, Some(entry)) => {
                &&& !self.entries.contains_key(id)
                &&& !self.ready.contains(id)
                &&& entry.queued is None
            },
            Event::Change(id, entry) => {
                &&& self.entries.contains_key(id)
                &&& entry.queued == self.entries[id].queued
            },
            Event::Finish(id, _, _, _) => {
                &&& self.entries.contains_key(id)
                &&& self.entries[id].queued is None
            },
            _ => true,
        }
    }

    /// The worker after some events, the first one first.
    pub open spec fn after_all(self, events: Seq<Event<H, P, E>>) -> Self
        decreases events.len(),
    {
        if events.len() == 0 {
            self
        } else {
            self.after_all(events.drop_last()).after(events.last())
        }
    }

    /// Each of the events is one that a pool's threads bring about.
    pub open spec fn expects_all(self, events: Seq<Event<H, P, E>>) -> bool
        decreases events.len(),
    {
        events.len() > 0 ==> {
            &&& self.expects_all(events.drop_last())
            &&& self.after_all(events.drop_last()).expects(events.last())
        }
    }
}

/// How often the first in line was taken.
pub open spec fn turns<H, P, E>(events: Seq<Event<H, P, E>>) -> int
    decreases events.len(),
{
    if events.len() == 0 {
        0
    } else {
        turns(events.drop_last()) + (if events.last() is Next {
            1int
        } else {
            0
        })
    }
}

/// How many messages were taken.
pub open spec fn deliveries<H, P, E>(events: Seq<Event<H, P, E>>) -> nat
    decreases events.len(),
{
    if events.len() == 0 {
        0
    } else {
        deliveries(events.drop_last()) + (if events.last() is Deliver {
            1nat
        } else {
            0
        })
    }
}

/// No circuit is ever twice in line, so that it never runs two commands at a time, and a circuit
/// is in line exactly if it says so.
pub proof fn law_line_is_kept<H, P, E>(worker: WorkerView<H, P, E>, events: Seq<Event<H, P, E>>)
    requires
        worker.wf(),
        worker.expects_all(events),
    ensures
        worker.after_all(events).wf(),
    decreases events.len(),
{
    if events.len() > 0 {
        law_line_is_kept(worker, events.drop_last());
        lemma_line_is_kept_once(worker.after_all(events.drop_last()), events.last());
    }
}

proof fn lemma_line_is_kept_once<H, P, E>(worker: WorkerView<H, P, E>, event: Event<H, P, E>)
    requires
        worker.wf(),
        worker.expects(event),
    ensures
        worker.after(event).wf(),
{
    let after = worker.after(event);
    if after.ready.len() == worker.ready.len() + 1 {
        let id = after.ready.last();
        assert forall|other: u64| after.ready.contains(other) <==> worker.ready.contains(other)
            || other == id by {
            if worker.ready.contains(other) {
                let i = worker.ready.index_of(other);
                assert(after.ready[i] == other);
            }
        }
    } else if event is Next && worker.ready.len() > 0 {
        let id = worker.ready[0];
        assert forall|other: u64| after.ready.contains(other) <==> worker.ready.contains(other)
            && other != id by {
            if worker.ready.contains(other) && other != id {
                let i = worker.ready.index_of(other);
                assert(after.ready[i - 1] == other);
            }
        }
    }
}

/// The line is served first come, first served: whatever happens meanwhile, a circuit that has
/// `place` others before it is taken after exactly that many turns, and it then runs if it still
/// lives on the worker.
pub proof fn law_first_come_first_served<H, P, E>(
    worker: WorkerView<H, P, E>,
    events: Seq<Event<H, P, E>>,
    place: int,
)
    requires
        0 <= place < worker.ready.len(),
        turns(events) <= place,
    ensures
        ({
            let after = worker.after_all(events);
            let left = place - turns(events);
            &&& 0 <= left < after.ready.len()
            &&& after.ready[left] == worker.ready[place]
            &&& left == 0 ==> after.due() == (if after.entries.contains_key(worker.ready[place]) {
                Some(worker.ready[place])
            } else {
                None
            })
        }),
    decreases events.len(),
{
    if events.len() > 0 {
        law_first_come_first_served(worker, events.drop_last(), place);
    }
}

/// A transaction that needs another step goes to the back of the line: everyone who is in line
/// when its step ends runs before it does.
pub proof fn law_steps_yield<H, P, E>(
    worker: WorkerView<H, P, E>,
    id: u64,
    spent: u128,
    now: u128,
    events: Seq<Event<H, P, E>>,
)
    requires
        turns(events) <= worker.ready.len(),
    ensures
        ({
            let after = worker.after(
                Event::Finish(id, Ended::Returned(Ok(true)), spent, now),
            ).after_all(events);
            let left = worker.ready.len() - turns(events);
            &&& left < after.ready.len()
            &&& after.ready[left] == id
        }),
{
    let yielded = worker.after(Event::Finish(id, Ended::Returned(Ok(true)), spent, now));
    law_first_come_first_served(yielded, events, worker.ready.len() as int);
}

/// Those who send messages cannot keep the circuits from running: in one round no more than the
/// limit are taken.
pub proof fn law_intake_is_bounded<H, P, E>(
    worker: WorkerView<H, P, E>,
    events: Seq<Event<H, P, E>>,
)
    requires
        worker.taken <= INTAKE_LIMIT,
        worker.expects_all(events),
        forall|i: int| 0 <= i < events.len() ==> !(#[trigger] events[i] is BeginRound),
    ensures
        worker.after_all(events).taken == worker.taken + deliveries(events),
        worker.taken + deliveries(events) <= INTAKE_LIMIT,
    decreases events.len(),
{
    if events.len() > 0 {
        law_intake_is_bounded(worker, events.drop_last());
    }
}

/// Circuits do not disturb each other: what happens to one of them, a failure among it, changes
/// nothing of the others, and none of them loses its place in line. Only the end of the worker is
/// the end of them all.
pub proof fn law_peers_are_left_alone<H, P, E>(
    worker: WorkerView<H, P, E>,
    event: Event<H, P, E>,
    peer: u64,
)
    requires
        event.about(worker.due()) != Some(peer),
        !(event is Close),
    ensures
        worker.after(event).entries.contains_key(peer) <==> worker.entries.contains_key(peer),
        worker.after(event).entries[peer] == worker.entries[peer],
        !(event is Next) ==> worker.ready.is_prefix_of(worker.after(event).ready),
{
}

/// A circuit that is in line already is not put there again, however often it is woken.
pub proof fn law_waking_twice_is_waking_once<H, P, E>(
    worker: WorkerView<H, P, E>,
    id: u64,
    first: u128,
    second: u128,
)
    ensures
        worker.waking(id, false, first).waking(id, false, second) == worker.waking(
            id,
            false,
            first,
        ),
{
}

/// A circuit that is not built lives nowhere: whatever else happens to a worker, a circuit that it
/// does not have comes to it only by being built.
pub proof fn law_unbuilt_circuits_do_not_live<H, P, E>(
    worker: WorkerView<H, P, E>,
    events: Seq<Event<H, P, E>>,
    id: u64,
)
    requires
        !worker.entries.contains_key(id),
        worker.expects_all(events),
        forall|i: int|
            0 <= i < events.len() ==> !(#[trigger] events[i] matches Event::Build(built, Some(_))
                && built == id),
    ensures
        !worker.after_all(events).entries.contains_key(id),
    decreases events.len(),
{
    if events.len() > 0 {
        law_unbuilt_circuits_do_not_live(worker, events.drop_last(), id);
    }
}

/// A circuit that was removed is gone: it is not woken, and its place in line is passed over.
pub proof fn law_removed_circuits_do_not_run<H, P, E>(
    worker: WorkerView<H, P, E>,
    id: u64,
    message: Message,
    stopped: bool,
    now: u128,
)
    requires
        message matches Message::Remove(removed, _) && removed == id,
    ensures
        ({
            let after = worker.after(Event::Deliver(message));
            &&& !after.entries.contains_key(id)
            &&& after.waking(id, stopped, now) == after
            &&& after.due() != Some(id)
        }),
{
}

} // verus!

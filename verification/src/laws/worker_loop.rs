//! What the loop of a worker keeps to.

use crate::channel::{asked, asked_once, Message};
use crate::command::{Answer, Command};
use crate::counters::{counter_range, Counters};
use crate::entry::EntryView;
use crate::error::Error;
use crate::laws::turn::law_turns_end;
use crate::laws::worker::{law_first_come_first_served, law_line_is_kept, turns, Event};
use crate::worker::{Ended, WorkerView, INTAKE_LIMIT};
use crate::worker_loop;
use crate::worker_loop::{taking, Action, At, LoopView};
use crossbeam::channel::Receiver;
use vstd::arithmetic::div_mod::lemma_add_mod_noop_right;
use vstd::prelude::*;

verus! {

/// One step of a loop, on `event`, is nothing but these events of its worker, each of which can
/// be expected; the first in line is taken if and only if the loop goes on to the circuits.
pub open spec fn made_of<H, P, E>(
    before: LoopView<H, P, E>,
    event: worker_loop::Event<H, P, E>,
    after: LoopView<H, P, E>,
    events: Seq<Event<H, P, E>>,
) -> bool {
    &&& after.worker == before.worker.after_all(events)
    &&& turns(events) == (if before.at is Before && !(after.at is Ended) {
        1int
    } else {
        0
    })
    &&& before.wf() && before.fresh(event) ==> before.worker.expects_all(events)
}

proof fn lemma_one_event<H, P, E>(worker: WorkerView<H, P, E>, only: Event<H, P, E>)
    ensures
        worker.after_all(seq![only]) == worker.after(only),
        worker.expects_all(seq![only]) == worker.expects(only),
        turns(seq![only]) == (if only is Next {
            1int
        } else {
            0
        }),
{
    let events = seq![only];
    assert(turns(events.drop_last()) == 0);
    assert(worker.after_all(events.drop_last()) == worker);
    assert(worker.expects_all(events.drop_last()));
}

proof fn lemma_two_events<H, P, E>(
    worker: WorkerView<H, P, E>,
    first: Event<H, P, E>,
    second: Event<H, P, E>,
)
    ensures
        worker.after_all(seq![first, second]) == worker.after(first).after(second),
        worker.expects_all(seq![first, second]) == (worker.expects(first) && worker.after(
            first,
        ).expects(second)),
        turns(seq![first, second]) == turns(seq![first]) + turns(seq![second]),
{
    lemma_one_event(worker, first);
    lemma_one_event(worker, second);
    let events = seq![first, second];
    assert(events.drop_last() =~= seq![first]);
}

/// The event with which the worker takes in what its thread tells it, before it takes a message.
spec fn taken_in<H, P, E>(
    before: LoopView<H, P, E>,
    event: worker_loop::Event<H, P, E>,
) -> Event<H, P, E> {
    match (before.at, event) {
        (At::Top, _) => Event::BeginRound,
        (At::Building(id), worker_loop::Event::Built(Some(entry))) => Event::Build(
            id,
            Some(entry@),
        ),
        (At::Inspecting(id), worker_loop::Event::Inspected(stopped, now)) => Event::Wake(
            id,
            stopped,
            now,
        ),
        _ => Event::Build(0, None),
    }
}

/// Whatever a loop does is made of what can happen to a worker, so that all that holds of workers
/// holds of loops.
pub proof fn law_loops_are_made_of_events<H, P, E>(
    before: LoopView<H, P, E>,
    event: worker_loop::Event<H, P, E>,
    after: LoopView<H, P, E>,
    action: Action<H, P, E>,
) -> (events: Seq<Event<H, P, E>>)
    requires
        before.sound(),
        before.expects(event),
        before.leads(event, after, action),
    ensures
        made_of(before, event, after, events),
{
    let worker = before.worker;
    if before.at_intake(event) {
        let first = taken_in(before, event);
        let (message, mailbox) = choose|message: Option<Message>, mailbox: Receiver<Message>|
            (after, action) == #[trigger] taking(before.absorbing(event), message, mailbox);
        match message {
            Some(message) if before.absorbing(event).taken < INTAKE_LIMIT => {
                lemma_one_event(worker, first);
                lemma_one_event(worker, Event::Deliver(message));
                lemma_two_events(worker, first, Event::Deliver(message));
                seq![first, Event::Deliver(message)]
            },
            _ => {
                lemma_one_event(worker, first);
                seq![first]
            },
        }
    } else {
        match (before.at, event) {
            (_, worker_loop::Event::Killed(true, _)) => {
                lemma_one_event(worker, Event::Close);
                seq![Event::Close]
            },
            (At::Before, worker_loop::Event::Killed(false, _)) => {
                lemma_one_event(worker, Event::Next);
                seq![Event::Next]
            },
            (At::Entering(id), _) => {
                let change = Event::Change(id, after.worker.entries[id]);
                lemma_one_event(worker, change);
                seq![change]
            },
            (At::Calling(id), worker_loop::Event::Replied(_)) => {
                let change = Event::Change(id, after.worker.entries[id]);
                lemma_one_event(worker, change);
                seq![change]
            },
            (At::Leaving(id, ended), worker_loop::Event::Left(spent, now)) => {
                let finish = Event::Finish(id, ended, spent, now);
                lemma_one_event(worker, finish);
                seq![finish]
            },
            _ => Seq::empty(),
        }
    }
}

/// Where nobody is twice in line, and the circuit that runs is not in line, that stays so.
pub proof fn law_loops_keep_the_line<H, P, E>(
    before: LoopView<H, P, E>,
    event: worker_loop::Event<H, P, E>,
    after: LoopView<H, P, E>,
    action: Action<H, P, E>,
)
    requires
        before.wf(),
        before.expects(event),
        before.fresh(event),
        before.leads(event, after, action),
    ensures
        after.wf(),
{
    let events = law_loops_are_made_of_events(before, event, after, action);
    law_line_is_kept(before.worker, events);
}

/// A circuit runs only when it is its turn: the context that is entered is that of the first in
/// line, and the calls that follow are made on that circuit.
pub proof fn law_loops_run_the_circuit_whose_turn_it_is<H, P, E>(
    before: LoopView<H, P, E>,
    event: worker_loop::Event<H, P, E>,
    after: LoopView<H, P, E>,
    action: Action<H, P, E>,
)
    requires
        before.sound(),
        before.expects(event),
        before.leads(event, after, action),
    ensures
        action matches Action::Enter(id) ==> {
            &&& before.worker.due() == Some(id)
            &&& after.at.running() == Some(id)
        },
        action matches Action::Call(id, _) ==> {
            &&& before.at.running() == Some(id)
            &&& after.at.running() == Some(id)
        },
        action matches Action::Leave(id) ==> {
            &&& before.at.running() == Some(id)
            &&& after.at.running() == Some(id)
        },
{
}

/// A turn is not interrupted: from the moment a circuit's context is entered until it is left, the
/// loop calls that circuit alone, and everyone else stays as they are.
pub proof fn law_turns_are_not_interrupted<H, P, E>(
    before: LoopView<H, P, E>,
    event: worker_loop::Event<H, P, E>,
    after: LoopView<H, P, E>,
    action: Action<H, P, E>,
    id: u64,
    peer: u64,
)
    requires
        before.sound(),
        before.expects(event),
        before.leads(event, after, action),
        before.at == At::<E>::Entering(id) || before.at == At::<E>::Calling(id),
        peer != id,
    ensures
        after.at.running() == Some(id),
        match action {
            Action::Call(to, _) => to == id,
            Action::Leave(to) => to == id,
            _ => false,
        },
        after.worker.ready == before.worker.ready,
        after.worker.entries.contains_key(peer) <==> before.worker.entries.contains_key(peer),
        after.worker.entries[peer] == before.worker.entries[peer],
{
}

impl<H, P, E> LoopView<H, P, E> {
    /// Only the circuit that was called has a turn under way, and only the circuit that is being
    /// left has an answer to give; it is left for another turn if its transaction is under way.
    pub open spec fn orderly(self) -> bool {
        forall|id: u64|
            #![trigger self.worker.entries[id]]
            self.worker.entries.contains_key(id) ==> {
                let entry = self.worker.entries[id];
                &&& entry.consistent()
                &&& entry.stage is Idle || self.at == At::<E>::Calling(id)
                &&& entry.response is None || self.at == At::<E>::Leaving(
                    id,
                    Ended::Returned(Ok(false)),
                )
                &&& self.at matches At::Leaving(left, Ended::Returned(Ok(again))) ==> left == id
                    ==> entry.transaction == again
            }
    }
}

/// Turns do not mix: as long as no circuit panics, a turn begins only where none is under way, and
/// no answer is given to a command other than the one that was served.
pub proof fn law_loops_are_orderly<H, P, E>(
    before: LoopView<H, P, E>,
    event: worker_loop::Event<H, P, E>,
    after: LoopView<H, P, E>,
    action: Action<H, P, E>,
)
    requires
        before.sound(),
        before.orderly(),
        before.expects(event),
        before.leads(event, after, action),
        !(event is Panicked),
        event matches worker_loop::Event::Built(Some(entry)) ==> entry@.stage is Idle
            && entry@.response is None,
    ensures
        after.orderly(),
{
}

/// Commands are served one by one: a circuit looks for one only when its turn begins and no
/// transaction is under way, and then only once.
pub proof fn law_commands_are_served_one_by_one<H, P, E>(
    before: LoopView<H, P, E>,
    event: worker_loop::Event<H, P, E>,
    after: LoopView<H, P, E>,
    action: Action<H, P, E>,
    id: u64,
)
    requires
        before.sound(),
        before.expects(event),
        before.leads(event, after, action),
        before.at != At::<E>::Building(id),
        before.worker.entries.contains_key(id),
        after.worker.entries.contains_key(id),
    ensures
        ({
            let commands = before.worker.entries[id].commands;
            let left = after.worker.entries[id].commands;
            left != commands ==> {
                &&& before.at == At::<E>::Entering(id)
                &&& !before.worker.entries[id].transaction
                &&& exists|command: Option<Command>|
                    #[trigger] asked_once(commands, command, left)
            }
        }),
{
}

/// What a turn came to reaches the holder of the circuit: an answer is sent as it was given.
pub proof fn law_answers_reach_the_holder<H, P, E>(
    before: LoopView<H, P, E>,
    event: worker_loop::Event<H, P, E>,
    after: LoopView<H, P, E>,
    action: Action<H, P, E>,
    id: u64,
    answer: Answer<P, E>,
)
    requires
        before.sound(),
        before.expects(event),
        before.leads(event, after, action),
        before.at == At::<E>::Leaving(id, Ended::Returned(Ok(false))),
        before.worker.entries[id].response == Some(answer),
    ensures
        action matches Action::Answer(to, response) && to == id && response@ == answer,
        after.worker.entries.contains_key(id),
        after.worker.entries[id].response is None,
{
}

/// An error ends the circuit that failed, and no other; its holder gets that error.
pub proof fn law_failures_end_one_circuit<H, P, E>(
    before: LoopView<H, P, E>,
    event: worker_loop::Event<H, P, E>,
    after: LoopView<H, P, E>,
    action: Action<H, P, E>,
    id: u64,
    error: Error<E>,
    peer: u64,
)
    requires
        before.sound(),
        before.expects(event),
        before.leads(event, after, action),
        before.at == At::<E>::Leaving(id, Ended::Returned(Err(error))),
        peer != id,
    ensures
        action matches Action::Fail(reason, entry) && reason == error && entry@.host
            == before.worker.entries[id].host,
        !after.worker.entries.contains_key(id),
        after.worker.entries.contains_key(peer) <==> before.worker.entries.contains_key(peer),
        after.worker.entries[peer] == before.worker.entries[peer],
        after.worker.ready == before.worker.ready,
{
}

/// A panic of one circuit stops the whole pool.
pub proof fn law_panics_stop_the_pool<H, P, E>(
    before: LoopView<H, P, E>,
    called: LoopView<H, P, E>,
    after: LoopView<H, P, E>,
    left: worker_loop::Event<H, P, E>,
    first: Action<H, P, E>,
    second: Action<H, P, E>,
)
    requires
        before.sound(),
        before.at is Calling,
        before.leads(worker_loop::Event::Panicked, called, first),
        called.expects(left),
        called.leads(left, after, second),
    ensures
        first is Leave,
        second is StopPool,
{
}

impl<H, P, E> LoopView<H, P, E> {
    /// How many steps are left at most, apart from the last one, once the pool is being stopped:
    /// the turn that is under way comes to its end, or more messages are taken, but no more than
    /// allowed. How many calls a turn takes is known once it has begun.
    pub open spec fn remaining(self) -> int {
        match self.at {
            At::Top | At::Before | At::Ended => 0,
            At::Settling => 1,
            At::Leaving(_, _) => 2,
            At::Calling(id) | At::Entering(id) => self.worker.entries[id].stage.calls_left() + 3,
            _ => INTAKE_LIMIT - self.worker.taken + 1,
        }
    }
}

/// Once the pool is being stopped, a loop starts no turn. It comes closer to its end, or is there;
/// then it has dropped all its circuits, and its mailbox with the messages that were still in it.
/// A turn that was entered just before is begun first.
pub proof fn law_stopped_loops_end<H, P, E>(
    before: LoopView<H, P, E>,
    event: worker_loop::Event<H, P, E>,
    after: LoopView<H, P, E>,
    action: Action<H, P, E>,
)
    requires
        before.sound(),
        before.expects(event),
        before.leads(event, after, action),
        before.worker.taken <= INTAKE_LIMIT,
        event matches worker_loop::Event::Killed(killed, _) ==> killed,
    ensures
        after.worker.taken <= INTAKE_LIMIT,
        !(action is Enter),
        !(after.at is Entering),
        after.at.running() is Some ==> after.at.running() == before.at.running(),
        if action is Exit {
            &&& after.at is Ended
            &&& after.worker.entries == Map::<u64, EntryView<H, P, E>>::empty()
            &&& after.mailbox is None
        } else {
            &&& !(after.at is Ended)
            &&& 0 <= after.remaining()
            &&& before.at is Entering || after.remaining() < before.remaining()
        },
{
    if let worker_loop::Event::Replied(reply) = event {
        if let At::Calling(id) = before.at {
            law_turns_end(before.worker.entries[id], reply);
        }
    }
}

/// The loop goes from one state to the next, on an event that it expects.
pub open spec fn is_step<H, P, E>(
    before: LoopView<H, P, E>,
    event: worker_loop::Event<H, P, E>,
    after: LoopView<H, P, E>,
    action: Action<H, P, E>,
) -> bool {
    before.sound() && before.expects(event) && before.leads(event, after, action)
}

/// The loop goes through these states, on these events.
pub open spec fn is_run<H, P, E>(
    states: Seq<LoopView<H, P, E>>,
    events: Seq<worker_loop::Event<H, P, E>>,
    actions: Seq<Action<H, P, E>>,
) -> bool {
    &&& states.len() == events.len() + 1
    &&& states.len() == actions.len() + 1
    &&& forall|i: int|
        #![trigger events[i]]
        0 <= i < events.len() ==> is_step(states[i], events[i], states[i + 1], actions[i])
}

/// How many steps a loop takes at most that goes through these states, once the pool is being
/// stopped.
pub open spec fn allowed<H, P, E>(states: Seq<LoopView<H, P, E>>) -> int {
    if states[0].at is Entering {
        if states.len() > 1 {
            states[1].remaining() + 2
        } else {
            1
        }
    } else {
        states[0].remaining() + 1
    }
}

/// A loop returns soon after the pool is being stopped: it starts no turn, brings the one that is
/// under way to its end, and takes a bounded number of steps in all.
pub proof fn law_stopped_loops_return<H, P, E>(
    states: Seq<LoopView<H, P, E>>,
    events: Seq<worker_loop::Event<H, P, E>>,
    actions: Seq<Action<H, P, E>>,
)
    requires
        is_run(states, events, actions),
        states[0].sound(),
        !(states[0].at is Ended),
        states[0].worker.taken <= INTAKE_LIMIT,
        forall|i: int|
            0 <= i < events.len() ==> (#[trigger] events[i] matches worker_loop::Event::Killed(
                killed,
                _,
            ) ==> killed),
    ensures
        forall|i: int| 0 <= i < actions.len() ==> !(#[trigger] actions[i] is Enter),
        states.last().worker.taken <= INTAKE_LIMIT,
        events.len() > 0 ==> !(states.last().at is Entering),
        events.len() <= allowed(states),
        if states.last().at is Ended {
            &&& states.last().worker.entries == Map::<u64, EntryView<H, P, E>>::empty()
            &&& states.last().mailbox is None
        } else {
            events.len() > 0 ==> 0 <= states.last().remaining() < allowed(states) - events.len()
        },
    decreases states.len(),
{
    if states.len() > 1 {
        let n = events.len() - 1;
        let earlier = states.drop_last();
        let before = events.drop_last();
        let done = actions.drop_last();
        assert forall|i: int| #![trigger before[i]] 0 <= i < before.len() implies is_step(
            earlier[i],
            before[i],
            earlier[i + 1],
            done[i],
        ) by {
            assert(before[i] == events[i]);
        }
        law_stopped_loops_return(earlier, before, done);
        assert(is_step(states[n], events[n], states[n + 1], actions[n]));
        law_stopped_loops_end(states[n], events[n], states[n + 1], actions[n]);
        assert forall|i: int| 0 <= i < actions.len() implies !(#[trigger] actions[i] is Enter) by {
            if i < n {
                assert(done[i] == actions[i]);
            }
        }
    }
}

/// How often the loop went on to the circuits, and took the first in line.
pub open spec fn turns_taken<H, P, E>(states: Seq<LoopView<H, P, E>>) -> int
    decreases states.len(),
{
    if states.len() <= 1 {
        0
    } else {
        turns_taken(states.drop_last()) + (if states[states.len() - 2].at is Before && !(
        states.last().at is Ended) {
            1int
        } else {
            0
        })
    }
}

/// Every circuit in line gets its turn, after those before it and no others: while the loop runs,
/// in whatever way, a circuit moves up by one place with every turn that is taken.
pub proof fn law_loops_are_fair<H, P, E>(
    states: Seq<LoopView<H, P, E>>,
    events: Seq<worker_loop::Event<H, P, E>>,
    actions: Seq<Action<H, P, E>>,
    place: int,
)
    requires
        is_run(states, events, actions),
        0 <= place < states[0].worker.ready.len(),
        turns_taken(states) <= place,
    ensures
        ({
            let ready = states.last().worker.ready;
            let left = place - turns_taken(states);
            0 <= left < ready.len() && ready[left] == states[0].worker.ready[place]
        }),
    decreases states.len(),
{
    if states.len() > 1 {
        let n = events.len() - 1;
        let earlier = states.drop_last();
        let before = events.drop_last();
        let done = actions.drop_last();
        assert forall|i: int| #![trigger before[i]] 0 <= i < before.len() implies is_step(
            earlier[i],
            before[i],
            earlier[i + 1],
            done[i],
        ) by {
            assert(before[i] == events[i]);
        }
        law_loops_are_fair(earlier, before, done, place);
        let made = law_loops_are_made_of_events(states[n], events[n], states[n + 1], actions[n]);
        law_first_come_first_served(states[n].worker, made, place - turns_taken(earlier));
    }
}

impl<H, P, E> LoopView<H, P, E> {
    /// The circuit `id` has taken a command to which it has not replied yet: a transaction is under
    /// way, a call was made for the command, or the turn that served it is being left.
    pub open spec fn owes(self, id: u64) -> bool {
        self.worker.entries.contains_key(id) && {
            let entry = self.worker.entries[id];
            ||| entry.transaction
            ||| self.at == At::<E>::Calling(id)
            ||| self.at matches At::Leaving(left, Ended::Returned(result)) && left == id && (result
                is Err || entry.response is Some)
        }
    }
}

/// How many commands of the circuit `id` were taken in one step of a loop.
pub open spec fn taken_in_step<H, P, E>(
    before: LoopView<H, P, E>,
    after: LoopView<H, P, E>,
    id: u64,
) -> int {
    if before.at == At::<E>::Entering(id) && !before.worker.entries[id].transaction && asked(
        after.worker.entries[id].commands,
    ).last() is Some {
        1
    } else {
        0
    }
}

/// How many replies were sent to the holder of the circuit `id` in one step of a loop: an answer,
/// or the error with which the circuit has failed.
pub open spec fn replies_in_step<H, P, E>(
    before: LoopView<H, P, E>,
    action: Action<H, P, E>,
    id: u64,
) -> int {
    if action matches Action::Answer(to, _) && to == id {
        1
    } else if action is Fail && before.at.running() == Some(id) {
        1
    } else {
        0
    }
}

/// How many commands of the circuit `id` were given up in one step of a loop, because the circuit
/// was dropped: it was removed, or had been stopped, or the loop has ended.
pub open spec fn given_up_in_step<H, P, E>(
    before: LoopView<H, P, E>,
    after: LoopView<H, P, E>,
    action: Action<H, P, E>,
    id: u64,
) -> int {
    if before.owes(id) && !after.worker.entries.contains_key(id) && !(action is Fail) {
        1
    } else {
        0
    }
}

/// The circuit that was built is new, and so is its number.
pub open spec fn brings_new<H, P, E>(
    before: LoopView<H, P, E>,
    event: worker_loop::Event<H, P, E>,
) -> bool {
    &&& before.fresh(event)
    &&& event matches worker_loop::Event::Built(Some(entry)) ==> {
        &&& entry@.stage is Idle
        &&& entry@.response is None
        &&& !entry@.transaction
    }
}

/// In one step, the commands that a circuit takes are those to which it replies, those that are
/// given up with it, and the one that it comes to owe a reply.
pub proof fn law_steps_settle_commands<H, P, E>(
    before: LoopView<H, P, E>,
    event: worker_loop::Event<H, P, E>,
    after: LoopView<H, P, E>,
    action: Action<H, P, E>,
    id: u64,
)
    requires
        is_step(before, event, after, action),
        before.orderly(),
        !(event is Panicked),
        brings_new(before, event),
    ensures
        after.orderly(),
        taken_in_step(before, after, id) + (if before.owes(id) {
            1int
        } else {
            0
        }) == replies_in_step(before, action, id) + given_up_in_step(before, after, action, id) + (
        if after.owes(id) {
            1int
        } else {
            0
        }),
{
    law_loops_are_orderly(before, event, after, action);
}

/// How many commands of the circuit `id` were taken by a loop that went through these states.
pub open spec fn taken<H, P, E>(states: Seq<LoopView<H, P, E>>, id: u64) -> int
    decreases states.len(),
{
    if states.len() <= 1 {
        0
    } else {
        taken(states.drop_last(), id) + taken_in_step(states[states.len() - 2], states.last(), id)
    }
}

/// How many replies were sent to the holder of the circuit `id`.
pub open spec fn replies<H, P, E>(
    states: Seq<LoopView<H, P, E>>,
    actions: Seq<Action<H, P, E>>,
    id: u64,
) -> int
    decreases actions.len(),
{
    if actions.len() == 0 {
        0
    } else {
        replies(states, actions.drop_last(), id) + replies_in_step(
            states[actions.len() - 1],
            actions.last(),
            id,
        )
    }
}

/// How many commands of the circuit `id` were given up because it was dropped.
pub open spec fn given_up<H, P, E>(
    states: Seq<LoopView<H, P, E>>,
    actions: Seq<Action<H, P, E>>,
    id: u64,
) -> int
    decreases actions.len(),
{
    if actions.len() == 0 {
        0
    } else {
        given_up(states, actions.drop_last(), id) + given_up_in_step(
            states[actions.len() - 1],
            states[actions.len() as int],
            actions.last(),
            id,
        )
    }
}

proof fn lemma_later_states_do_not_matter<H, P, E>(
    states: Seq<LoopView<H, P, E>>,
    actions: Seq<Action<H, P, E>>,
    id: u64,
)
    requires
        actions.len() + 1 < states.len(),
    ensures
        replies(states.drop_last(), actions, id) == replies(states, actions, id),
        given_up(states.drop_last(), actions, id) == given_up(states, actions, id),
    decreases actions.len(),
{
    if actions.len() > 0 {
        lemma_later_states_do_not_matter(states, actions.drop_last(), id);
    }
}

/// There is one reply to each command: as long as no circuit panics, the commands that a loop has
/// taken for a circuit are as many as the replies that it sent to its holder, apart from one that
/// is still being served, and from one that was given up because the circuit was dropped.
pub proof fn law_every_command_gets_one_reply<H, P, E>(
    states: Seq<LoopView<H, P, E>>,
    events: Seq<worker_loop::Event<H, P, E>>,
    actions: Seq<Action<H, P, E>>,
    id: u64,
)
    requires
        is_run(states, events, actions),
        states[0].orderly(),
        !states[0].owes(id),
        forall|i: int|
            0 <= i < events.len() ==> !(#[trigger] events[i] is Panicked) && brings_new(
                states[i],
                events[i],
            ),
    ensures
        states.last().orderly(),
        taken(states, id) == replies(states, actions, id) + given_up(states, actions, id) + (
        if states.last().owes(id) {
            1int
        } else {
            0
        }),
    decreases states.len(),
{
    if states.len() > 1 {
        let n = events.len() - 1;
        let earlier = states.drop_last();
        let before = events.drop_last();
        let done = actions.drop_last();
        assert forall|i: int| #![trigger before[i]] 0 <= i < before.len() implies is_step(
            earlier[i],
            before[i],
            earlier[i + 1],
            done[i],
        ) && !(before[i] is Panicked) && brings_new(earlier[i], before[i]) by {
            assert(before[i] == events[i]);
        }
        law_every_command_gets_one_reply(earlier, before, done, id);
        lemma_later_states_do_not_matter(states, done, id);
        law_steps_settle_commands(states[n], events[n], states[n + 1], actions[n], id);
    }
}

/// A loop can count on counters of its own, to be merged later: that comes to the same as counting
/// on the shared ones.
pub proof fn law_counts_can_be_merged<H, P, E>(
    before: LoopView<H, P, E>,
    event: worker_loop::Event<H, P, E>,
    shared: Counters,
)
    ensures
        shared.merging(
            before.counting(event, Counters { steps: 0, queue_nanos: 0, execution_nanos: 0 }),
        ) == before.counting(event, shared),
{
    let range = counter_range();
    match event {
        worker_loop::Event::Killed(_, now) => {
            let waited = before.worker.waited(now);
            lemma_add_mod_noop_right(shared.queue_nanos as int, waited, range);
        },
        worker_loop::Event::Left(spent, _) => {
            lemma_add_mod_noop_right(shared.execution_nanos as int, spent as int, range);
        },
        _ => {},
    }
}

} // verus!

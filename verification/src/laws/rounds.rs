//! What the rounds of a worker's loop are for: messages that are acted on, turns that are taken,
//! and time and steps that are counted.

use crate::channel::{asked, looks, Look, Message};
use crate::command::{Call, Command, Reply};
use crate::counters::{counted, Counters};
use crate::entry::{EntryView, Turn};
use crate::laws::line::{others_alike, same_but_for_the_line};
use crate::laws::pool::law_counters_are_cumulative;
use crate::laws::worker_loop::{is_run, is_step};
use crate::worker::Ended;
use crate::worker_loop::{Action, At, Event, LoopView};
use crossbeam::channel::Receiver;
use vstd::prelude::*;

verus! {

/// The message that was found by a look into a mailbox, if any.
pub open spec fn found(look: Look) -> Option<Message> {
    match look {
        Look::Now(message) => message,
        Look::Within(_, message) => message,
    }
}

/// The last look into a mailbox has found that this circuit is to be removed.
pub open spec fn removes(mailbox: Receiver<Message>, id: u64) -> bool {
    found(looks(mailbox).last()) matches Some(Message::Remove(removed, _)) && removed == id
}

/// The loop takes messages now: a round begins, or something has been done about a message.
pub open spec fn takes_messages<H, P, E>(
    before: LoopView<H, P, E>,
    event: Event<H, P, E>,
) -> bool {
    match before.at {
        At::Top => event matches Event::Killed(killed, _) && !killed,
        At::Building(_) | At::Inspecting(_) | At::Intake => true,
        _ => false,
    }
}

/// How many messages of this round have been taken.
pub open spec fn taken_so_far<H, P, E>(before: LoopView<H, P, E>) -> int {
    if before.at is Top {
        0
    } else {
        before.worker.taken as int
    }
}

/// A loop that takes messages looks into its mailbox, once, unless it has taken as many as it may
/// in one round. What it finds is what it has its thread do: build the circuit that is to be
/// created, see to the circuit that has a command if it lives here, acknowledge on the channel that
/// was sent for it that a circuit was dropped, or stop the pool. Where it finds nothing it goes on
/// to the circuits.
pub proof fn law_what_is_found_is_done<H, P, E>(
    before: LoopView<H, P, E>,
    event: Event<H, P, E>,
    after: LoopView<H, P, E>,
    action: Action<H, P, E>,
)
    requires
        is_step(before, event, after, action),
        takes_messages(before, event),
    ensures
        after.mailbox is Some,
        if taken_so_far(before) >= 64 {
            &&& after.mailbox == before.mailbox
            &&& after.worker.taken == taken_so_far(before)
            &&& after.at is Before
            &&& action is AskKilled
        } else {
            let seen = looks(after.mailbox->0);
            &&& seen.len() == looks(before.mailbox->0).len() + 1
            &&& seen.drop_last() == looks(before.mailbox->0)
            &&& seen.last() == (if taken_so_far(before) == 0 && after.worker.ready.len() == 0 {
                Look::Within(100, found(seen.last()))
            } else {
                Look::Now(found(seen.last()))
            })
            &&& after.worker.taken == taken_so_far(before) + (if found(seen.last()) is Some {
                1int
            } else {
                0
            })
            &&& match found(seen.last()) {
                None => after.at is Before && action is AskKilled,
                Some(Message::Create(id)) => {
                    &&& after.at == At::<E>::Building(id)
                    &&& action == Action::<H, P, E>::Build(id)
                },
                Some(Message::Wake(id)) => if after.worker.entries.contains_key(id) {
                    &&& after.at == At::<E>::Inspecting(id)
                    &&& action == Action::<H, P, E>::Inspect(id)
                } else {
                    after.at is Intake && action is Pass
                },
                Some(Message::Remove(id, ack)) => {
                    &&& !after.worker.entries.contains_key(id)
                    &&& after.at is Intake
                    &&& action == Action::<H, P, E>::Acknowledge(ack)
                },
                Some(Message::Shutdown) => after.at is Intake && action is StopPool,
            }
        },
{
    if taken_so_far(before) < 64 {
        let seen = looks(after.mailbox->0);
        assert(seen.drop_last() =~= looks(before.mailbox->0));
    }
}

/// A circuit that was built, as its thread was told, lives here from then on, as it was handed in;
/// unless the very next message is that it is to be removed.
pub proof fn law_built_circuits_live_here<H, P, E>(
    before: LoopView<H, P, E>,
    event: Event<H, P, E>,
    after: LoopView<H, P, E>,
    action: Action<H, P, E>,
    id: u64,
)
    requires
        is_step(before, event, after, action),
        before.at == At::<E>::Building(id),
        !(action is Acknowledge && removes(after.mailbox->0, id)),
    ensures
        event matches Event::Built(Some(entry)) ==> {
            &&& after.worker.entries.contains_key(id)
            &&& after.worker.entries[id] == entry@
        },
        event matches Event::Built(None) ==> {
            &&& after.worker.entries.contains_key(id) == before.worker.entries.contains_key(id)
            &&& after.worker.entries[id] == before.worker.entries[id]
        },
        after.worker.ready == before.worker.ready,
{
}

/// A circuit that has a command waiting and is seen to goes to the back of the line, if it has not
/// been stopped and is not in line already; the line changes in no other way. It then says since
/// when it waits, and nothing else of it has changed; unless the very next message is that it is to
/// be removed.
pub proof fn law_commands_bring_circuits_in_line<H, P, E>(
    before: LoopView<H, P, E>,
    stopped: bool,
    now: u128,
    after: LoopView<H, P, E>,
    action: Action<H, P, E>,
    id: u64,
)
    requires
        is_step(before, Event::Inspected(stopped, now), after, action),
        before.at == At::<E>::Inspecting(id),
        before.worker.entries.contains_key(id),
    ensures
        after.worker.ready == (if !stopped && before.worker.entries[id].queued is None {
            before.worker.ready.push(id)
        } else {
            before.worker.ready
        }),
        stopped ==> !after.worker.entries.contains_key(id),
        !stopped && !(action is Acknowledge && removes(after.mailbox->0, id)) ==> {
            &&& after.worker.entries.contains_key(id)
            &&& same_but_for_the_line(before.worker.entries[id], after.worker.entries[id])
            &&& after.worker.entries[id].queued == (match before.worker.entries[id].queued {
                Some(since) => Some(since),
                None => Some(now),
            })
        },
{
}

/// While messages are taken nobody is touched but the circuit that was built or seen to, and the
/// one that is removed.
pub proof fn law_messages_touch_nobody_else<H, P, E>(
    before: LoopView<H, P, E>,
    event: Event<H, P, E>,
    after: LoopView<H, P, E>,
    action: Action<H, P, E>,
    id: u64,
)
    requires
        is_step(before, event, after, action),
        takes_messages(before, event),
        before.at != At::<E>::Building(id),
        before.at != At::<E>::Inspecting(id),
        !(action is Acknowledge && removes(after.mailbox->0, id)),
    ensures
        after.worker.entries.contains_key(id) == before.worker.entries.contains_key(id),
        after.worker.entries[id] == before.worker.entries[id],
        !(before.at is Inspecting) ==> after.worker.ready == before.worker.ready,
{
}

/// After the messages the first in line has its turn, if it lives here; otherwise it is passed
/// over, and a new round begins. Nothing of it changes but that it is no longer in line, nobody
/// else is touched, and no message is taken.
pub proof fn law_the_first_in_line_has_its_turn<H, P, E>(
    before: LoopView<H, P, E>,
    now: u128,
    after: LoopView<H, P, E>,
    action: Action<H, P, E>,
)
    requires
        is_step(before, Event::Killed(false, now), after, action),
        before.at is Before,
    ensures
        after.mailbox == before.mailbox,
        after.worker.taken == before.worker.taken,
        if before.worker.ready.len() == 0 {
            &&& after == (LoopView { at: after.at, ..before })
            &&& after.at is Top
            &&& action is AskKilled
        } else {
            let id = before.worker.ready[0];
            &&& before.worker.ready == seq![id] + after.worker.ready
            &&& others_alike(before.worker, after.worker, id)
            &&& if before.worker.entries.contains_key(id) {
                &&& after.at == At::<E>::Entering(id)
                &&& action == Action::<H, P, E>::Enter(id)
                &&& after.worker.entries.contains_key(id)
                &&& after.worker.entries[id].queued is None
                &&& same_but_for_the_line(before.worker.entries[id], after.worker.entries[id])
            } else {
                &&& after.at is Top
                &&& action is AskKilled
                &&& !after.worker.entries.contains_key(id)
            }
        },
{
    if before.worker.ready.len() > 0 {
        assert(before.worker.ready =~= seq![before.worker.ready[0]] + after.worker.ready);
    }
}

/// The loop does with a turn of the circuit `id` what the turn says: it has the call made that is
/// asked for, or has the circuit left with what the turn came to.
pub open spec fn goes_on_with<H, P, E>(
    after: LoopView<H, P, E>,
    action: Action<H, P, E>,
    id: u64,
    turn: Turn<E>,
) -> bool {
    match turn {
        Turn::Ask(call) => {
            &&& after.at == At::<E>::Calling(id)
            &&& action == Action::<H, P, E>::Call(id, call)
        },
        Turn::Over(result) => {
            &&& after.at == At::<E>::Leaving(id, Ended::Returned(result))
            &&& action == Action::<H, P, E>::Leave(id)
        },
    }
}

/// A circuit that has its turn steps, if its transaction is under way; then nothing is taken from
/// its channel. Otherwise it looks for a command, once, and serves the one that it has found.
/// Nobody else is touched.
pub proof fn law_turns_begin<H, P, E>(
    before: LoopView<H, P, E>,
    event: Event<H, P, E>,
    after: LoopView<H, P, E>,
    action: Action<H, P, E>,
    id: u64,
)
    requires
        is_step(before, event, after, action),
        before.at == At::<E>::Entering(id),
    ensures
        after.mailbox == before.mailbox,
        after.worker.ready == before.worker.ready,
        after.worker.taken == before.worker.taken,
        others_alike(before.worker, after.worker, id),
        after.worker.entries.contains_key(id),
        before.worker.entries[id].transaction ==> {
            &&& action == Action::<H, P, E>::Call(id, Call::Step)
            &&& after.worker.entries[id].commands == before.worker.entries[id].commands
            &&& after.worker.entries[id] == before.worker.entries[id].stepping().0
        },
        !before.worker.entries[id].transaction ==> {
            let looked = asked(after.worker.entries[id].commands);
            &&& looked.len() == asked(before.worker.entries[id].commands).len() + 1
            &&& looked.drop_last() == asked(before.worker.entries[id].commands)
            &&& exists|turn: Turn<E>|
                {
                    &&& #[trigger] goes_on_with(after, action, id, turn)
                    &&& (EntryView {
                        commands: after.worker.entries[id].commands,
                        ..before.worker.entries[id]
                    }).accepting(looked.last(), after.worker.entries[id], turn)
                }
        },
{
    if !before.worker.entries[id].transaction {
        let (command, commands, entry, turn) = choose|
            command: Option<Command>,
            commands: Receiver<Command>,
            entry: EntryView<H, P, E>,
            turn: Turn<E>,
        |
            #[trigger] before.serving(command, commands, entry, turn, after, action);
        let looked = asked(after.worker.entries[id].commands);
        assert(looked.drop_last() =~= asked(before.worker.entries[id].commands));
        assert(goes_on_with(after, action, id, turn));
    }
}

/// A circuit that has replied goes on with its turn; one that has panicked is left. Nobody else is
/// touched.
pub proof fn law_turns_go_on<H, P, E>(
    before: LoopView<H, P, E>,
    event: Event<H, P, E>,
    after: LoopView<H, P, E>,
    action: Action<H, P, E>,
    id: u64,
)
    requires
        is_step(before, event, after, action),
        before.at == At::<E>::Calling(id),
    ensures
        after.mailbox == before.mailbox,
        after.worker.ready == before.worker.ready,
        after.worker.taken == before.worker.taken,
        others_alike(before.worker, after.worker, id),
        after.worker.entries.contains_key(id),
        event matches Event::Replied(reply) ==> {
            let (entry, turn) = before.worker.entries[id].resuming(reply);
            after.worker.entries[id] == entry && goes_on_with(after, action, id, turn)
        },
        event is Panicked ==> {
            &&& after.worker.entries[id] == before.worker.entries[id]
            &&& after.at == At::<E>::Leaving(id, Ended::Panicked)
            &&& action == Action::<H, P, E>::Leave(id)
        },
{
}

/// A circuit that is left has run for the time of its turn longer. If it wants another turn it
/// waits at the back of the line, since now; if it has an answer, that is sent; if it has failed,
/// its error is sent, and it is dropped; if it has panicked, the pool is stopped. Nothing else of
/// it changes, and nobody else is touched.
pub proof fn law_turns_are_left<H, P, E>(
    before: LoopView<H, P, E>,
    spent: u128,
    now: u128,
    after: LoopView<H, P, E>,
    action: Action<H, P, E>,
    id: u64,
    ended: Ended<E>,
)
    requires
        is_step(before, Event::Left(spent, now), after, action),
        before.at == At::<E>::Leaving(id, ended),
    ensures
        after.mailbox == before.mailbox,
        after.worker.taken == before.worker.taken,
        others_alike(before.worker, after.worker, id),
        ({
            let entry = before.worker.entries[id];
            let left = after.worker.entries[id];
            &&& after.worker.entries.contains_key(id) ==> {
                &&& left.elapsed == entry.elapsed + spent
                &&& left.host == entry.host
                &&& left.commands == entry.commands
                &&& left.transaction == entry.transaction
                &&& left.stepped == entry.stepped
                &&& left.stage == entry.stage
            }
            &&& match ended {
                Ended::Returned(Ok(true)) => {
                    &&& after.worker.ready == before.worker.ready.push(id)
                    &&& after.worker.entries.contains_key(id)
                    &&& left.queued == Some(now)
                    &&& left.response == entry.response
                    &&& after.at is Top
                    &&& action is AskKilled
                },
                Ended::Returned(Ok(false)) => {
                    &&& after.worker.ready == before.worker.ready
                    &&& after.worker.entries.contains_key(id)
                    &&& left.queued == entry.queued
                    &&& left.response is None
                    &&& match entry.response {
                        Some(answer) => {
                            &&& after.at is Settling
                            &&& action matches Action::Answer(to, response) && to == id
                                && response@ == answer
                        },
                        None => after.at is Top && action is AskKilled,
                    }
                },
                Ended::Returned(Err(error)) => {
                    &&& after.worker.ready == before.worker.ready
                    &&& !after.worker.entries.contains_key(id)
                    &&& after.at is Settling
                    &&& action matches Action::Fail(reason, dropped) && reason == error
                        && dropped@.host == entry.host && dropped@.elapsed == entry.elapsed + spent
                },
                Ended::Panicked => {
                    &&& after.worker.ready == before.worker.ready
                    &&& after.worker.entries.contains_key(id)
                    &&& left.queued == entry.queued
                    &&& left.response == entry.response
                    &&& after.at is Settling
                    &&& action is StopPool
                },
            }
        }),
{
}

/// Once what there was to tell has been told, a new round begins, and nothing else changes.
pub proof fn law_rounds_follow_each_other<H, P, E>(
    before: LoopView<H, P, E>,
    event: Event<H, P, E>,
    after: LoopView<H, P, E>,
    action: Action<H, P, E>,
)
    requires
        is_step(before, event, after, action),
        before.at is Settling,
    ensures
        after.worker == before.worker,
        after.mailbox == before.mailbox,
        after.at is Top,
        action is AskKilled,
{
}

/// A loop ends exactly if its thread has found that the pool is being stopped.
pub proof fn law_loops_end_only_with_their_pool<H, P, E>(
    before: LoopView<H, P, E>,
    event: Event<H, P, E>,
    after: LoopView<H, P, E>,
    action: Action<H, P, E>,
)
    requires
        is_step(before, event, after, action),
    ensures
        action is Exit <==> (event matches Event::Killed(killed, _) && killed),
        action is Exit <==> after.at is Ended,
{
}

/// A loop can be told all that can come of what it has asked for: whether the pool is being
/// stopped, the circuit that was built or none, whether a circuit has been stopped, the reply of
/// the circuit that was called or its panic, and how long a turn took.
pub proof fn law_loops_hear_what_they_ask_for<H, P, E>(state: LoopView<H, P, E>)
    ensures
        match state.at {
            At::Top | At::Before => forall|killed: bool, now: u128|
                #[trigger] state.expects(Event::Killed(killed, now)),
            At::Building(_) => forall|built|
                #[trigger] state.expects(Event::<H, P, E>::Built(built)),
            At::Inspecting(_) => forall|stopped: bool, now: u128|
                #[trigger] state.expects(Event::Inspected(stopped, now)),
            At::Intake | At::Entering(_) | At::Settling => state.expects(Event::Done),
            At::Calling(id) => {
                &&& state.expects(Event::Panicked)
                &&& forall|reply: Reply<P, E>|
                    #[trigger] state.expects(Event::Replied(reply))
                        <==> state.worker.entries[id].stage.answered_by(reply)
            },
            At::Leaving(id, _) => forall|spent: u128, now: u128|
                state.worker.entries[id].elapsed + spent
                    <= 18_446_744_073_709_551_615_999_999_999 ==> #[trigger] state.expects(
                    Event::Left(spent, now),
                ),
            At::Ended => true,
        },
{
}

/// Only two things are counted: how long the first in line has waited, when its turn comes; and how
/// long a turn took, with a step if the circuit has stepped in it, when the turn is left.
pub proof fn law_only_turns_are_counted<H, P, E>(
    before: LoopView<H, P, E>,
    event: Event<H, P, E>,
    counters: Counters,
)
    requires
        before.expects(event),
    ensures
        ({
            let after = before.counting(event, counters);
            match (before.at, event) {
                (At::Before, Event::Killed(false, now)) => {
                    &&& after.steps == counters.steps
                    &&& after.execution_nanos == counters.execution_nanos
                    &&& after.queue_nanos == (counters.queue_nanos + waiting(before, now))
                        % 0x1_0000_0000_0000_0000
                },
                (At::Leaving(id, _), Event::Left(spent, _)) => {
                    &&& after.steps == (counters.steps + (if before.worker.entries[id].stepped {
                        1int
                    } else {
                        0
                    })) % 0x1_0000_0000_0000_0000
                    &&& after.execution_nanos == (counters.execution_nanos + spent)
                        % 0x1_0000_0000_0000_0000
                    &&& after.queue_nanos == counters.queue_nanos
                },
                _ => after == counters,
            }
        }),
{
}

/// How long the circuit that has its turn now has waited in line.
pub open spec fn waiting<H, P, E>(state: LoopView<H, P, E>, now: u128) -> int {
    if state.worker.ready.len() > 0 && state.worker.entries.contains_key(state.worker.ready[0])
        && state.worker.entries[state.worker.ready[0]].queued is Some
        && state.worker.entries[state.worker.ready[0]].queued->0 <= now {
        now - state.worker.entries[state.worker.ready[0]].queued->0
    } else {
        0
    }
}

/// How long the turns of the circuit `id` took that were left in these states.
pub open spec fn time_in_turns<H, P, E>(
    states: Seq<LoopView<H, P, E>>,
    events: Seq<Event<H, P, E>>,
    id: u64,
) -> int
    decreases events.len(),
{
    if events.len() == 0 {
        0
    } else {
        time_in_turns(states, events.drop_last(), id) + (match (
            states[events.len() - 1].at,
            events.last(),
        ) {
            (At::Leaving(left, _), Event::Left(spent, _)) => if left == id {
                spent as int
            } else {
                0
            },
            _ => 0,
        })
    }
}

/// How long a circuit has run is the sum of the times that its turns took, whatever else happened
/// meanwhile.
pub proof fn law_circuits_have_run_for_their_turns<H, P, E>(
    states: Seq<LoopView<H, P, E>>,
    events: Seq<Event<H, P, E>>,
    actions: Seq<Action<H, P, E>>,
    id: u64,
)
    requires
        is_run(states, events, actions),
        forall|i: int|
            0 <= i < states.len() ==> (#[trigger] states[i]).worker.entries.contains_key(id)
                && states[i].at != At::<E>::Building(id),
    ensures
        states.last().worker.entries[id].elapsed == states[0].worker.entries[id].elapsed
            + time_in_turns(states, events, id),
    decreases events.len(),
{
    if events.len() > 0 {
        let n = events.len() - 1;
        let (earlier, before, done) = lemma_shorter_run(states, events, actions);
        assert forall|i: int| 0 <= i < earlier.len() implies (#[trigger]
        earlier[i]).worker.entries.contains_key(id) && earlier[i].at != At::<E>::Building(id) by {
            assert(earlier[i] == states[i]);
        }
        law_circuits_have_run_for_their_turns(earlier, before, done, id);
        lemma_time_of_shorter_run(states, before, id);
        assert(states[n].worker.entries.contains_key(id));
        assert(states[n + 1].worker.entries.contains_key(id));
        assert(is_step(states[n], events[n], states[n + 1], actions[n]));
    }
}

proof fn lemma_time_of_shorter_run<H, P, E>(
    states: Seq<LoopView<H, P, E>>,
    events: Seq<Event<H, P, E>>,
    id: u64,
)
    requires
        events.len() < states.len(),
    ensures
        time_in_turns(states.drop_last(), events, id) == time_in_turns(states, events, id),
    decreases events.len(),
{
    if events.len() > 0 {
        lemma_time_of_shorter_run(states, events.drop_last(), id);
    }
}

proof fn lemma_shorter_run<H, P, E>(
    states: Seq<LoopView<H, P, E>>,
    events: Seq<Event<H, P, E>>,
    actions: Seq<Action<H, P, E>>,
) -> (shorter: (Seq<LoopView<H, P, E>>, Seq<Event<H, P, E>>, Seq<Action<H, P, E>>))
    requires
        is_run(states, events, actions),
        events.len() > 0,
    ensures
        shorter.0 == states.drop_last(),
        shorter.1 == events.drop_last(),
        shorter.2 == actions.drop_last(),
        is_run(shorter.0, shorter.1, shorter.2),
        ({
            let n = events.len() - 1;
            is_step(states[n], events[n], states[n + 1], actions[n])
        }),
{
    let (earlier, before, done) = (states.drop_last(), events.drop_last(), actions.drop_last());
    assert forall|i: int| #![trigger before[i]] 0 <= i < before.len() implies is_step(
        earlier[i],
        before[i],
        earlier[i + 1],
        done[i],
    ) by {
        assert(before[i] == events[i]);
    }
    let n = events.len() - 1;
    assert(events[n] == events.last());
    (earlier, before, done)
}

/// A circuit is asked for its profile as of the time that it has run.
pub proof fn law_profiles_cover_the_time_run<H, P, E>(
    before: LoopView<H, P, E>,
    event: Event<H, P, E>,
    after: LoopView<H, P, E>,
    action: Action<H, P, E>,
)
    requires
        is_step(before, event, after, action),
    ensures
        action matches Action::Call(id, Call::Profile(nanos)) ==> nanos
            == before.worker.entries[id].elapsed && after.worker.entries[id].elapsed == nanos,
        action matches Action::Call(id, Call::DumpProfile(nanos)) ==> nanos
            == before.worker.entries[id].elapsed && after.worker.entries[id].elapsed == nanos,
{
}

/// How many steps have succeeded: an engine was called for a step, and has replied that it was
/// done.
pub open spec fn steps_done<H, P, E>(
    events: Seq<Event<H, P, E>>,
    actions: Seq<Action<H, P, E>>,
) -> int
    decreases events.len(),
{
    if events.len() == 0 {
        0
    } else {
        steps_done(events.drop_last(), actions) + (if events.len() > 1 && (actions[events.len()
            - 2] matches Action::Call(_, Call::Step)) && (events.last() matches Event::Replied(
            Reply::Done(Ok(_)),
        )) {
            1int
        } else {
            0
        })
    }
}

/// How long all turns took that were left.
pub open spec fn time_run<H, P, E>(events: Seq<Event<H, P, E>>) -> int
    decreases events.len(),
{
    if events.len() == 0 {
        0
    } else {
        time_run(events.drop_last()) + (match events.last() {
            Event::Left(spent, _) => spent as int,
            _ => 0,
        })
    }
}

/// How long all circuits that had their turns have waited for them.
pub open spec fn time_waited<H, P, E>(
    states: Seq<LoopView<H, P, E>>,
    events: Seq<Event<H, P, E>>,
) -> int
    decreases events.len(),
{
    if events.len() == 0 {
        0
    } else {
        time_waited(states, events.drop_last()) + (match (
            states[events.len() - 1].at,
            events.last(),
        ) {
            (At::Before, Event::Killed(false, now)) => waiting(states[events.len() - 1], now),
            _ => 0,
        })
    }
}

/// The counters after a run of a loop.
pub open spec fn counters_after<H, P, E>(
    states: Seq<LoopView<H, P, E>>,
    events: Seq<Event<H, P, E>>,
    counters: Counters,
) -> Counters
    decreases events.len(),
{
    if events.len() == 0 {
        counters
    } else {
        states[events.len() - 1].counting(
            events.last(),
            counters_after(states, events.drop_last(), counters),
        )
    }
}

/// The circuit that has its turn has stepped in it.
pub open spec fn has_stepped<H, P, E>(state: LoopView<H, P, E>) -> bool {
    match state.at {
        At::Calling(id) => state.worker.entries[id].stepped,
        At::Leaving(id, _) => state.worker.entries[id].stepped,
        _ => false,
    }
}

/// The circuit that has its turn was called for a step.
pub open spec fn awaits_step<H, P, E>(state: LoopView<H, P, E>) -> bool {
    state.at matches At::Calling(id) && (state.worker.entries[id].stage is Stepping
        || state.worker.entries[id].stage is SingleStep)
}

/// How many steps are counted when this event comes.
spec fn steps_counted<H, P, E>(before: LoopView<H, P, E>, event: Event<H, P, E>) -> int {
    match (before.at, event) {
        (At::Leaving(id, _), Event::Left(_, _)) => if before.worker.entries[id].stepped {
            1
        } else {
            0
        },
        _ => 0,
    }
}

proof fn lemma_steps_of_a_step<H, P, E>(
    before: LoopView<H, P, E>,
    event: Event<H, P, E>,
    after: LoopView<H, P, E>,
    action: Action<H, P, E>,
)
    requires
        is_step(before, event, after, action),
        awaits_step(before) ==> !has_stepped(before),
    ensures
        awaits_step(after) <==> (action matches Action::Call(_, Call::Step)),
        awaits_step(after) ==> !has_stepped(after),
        (if has_stepped(after) {
            1int
        } else {
            0
        }) + steps_counted(before, event) == (if has_stepped(before) {
            1int
        } else {
            0
        }) + (if awaits_step(before) && (event matches Event::Replied(Reply::Done(Ok(_)))) {
            1int
        } else {
            0
        }),
{
}

proof fn lemma_counts_of_a_step<H, P, E>(
    before: LoopView<H, P, E>,
    event: Event<H, P, E>,
    start: Counters,
    counters: Counters,
    steps: int,
    run: int,
    waited: int,
)
    requires
        before.expects(event),
        steps >= 0,
        run >= 0,
        waited >= 0,
        counters.steps == counted(start.steps, steps),
        counters.execution_nanos == counted(start.execution_nanos, run),
        counters.queue_nanos == counted(start.queue_nanos, waited),
    ensures
        ({
            let after = before.counting(event, counters);
            &&& after.steps == counted(start.steps, steps + steps_counted(before, event))
            &&& after.execution_nanos == counted(
                start.execution_nanos,
                run + (match event {
                    Event::Left(spent, _) => spent as int,
                    _ => 0,
                }),
            )
            &&& after.queue_nanos == counted(
                start.queue_nanos,
                waited + (match (before.at, event) {
                    (At::Before, Event::Killed(false, now)) => waiting(before, now),
                    _ => 0,
                }),
            )
        }),
{
    law_only_turns_are_counted(before, event, counters);
    match (before.at, event) {
        (At::Before, Event::Killed(false, now)) => {
            law_counters_are_cumulative(start.queue_nanos, waited, waiting(before, now));
        },
        (At::Leaving(id, _), Event::Left(spent, _)) => {
            law_counters_are_cumulative(start.execution_nanos, run, spent as int);
            law_counters_are_cumulative(start.steps, steps, steps_counted(before, event));
        },
        _ => {},
    }
}

/// The statistics say what has happened: from a round's beginning on, the steps that are counted
/// are those that have succeeded, apart from one of a turn that is still under way; the time that
/// is counted as running is that of all turns; and the time that is counted as waiting is that of
/// all circuits that had a turn.
#[verifier::spinoff_prover]
pub proof fn law_statistics_say_what_has_happened<H, P, E>(
    states: Seq<LoopView<H, P, E>>,
    events: Seq<Event<H, P, E>>,
    actions: Seq<Action<H, P, E>>,
    counters: Counters,
)
    requires
        is_run(states, events, actions),
        states[0].at is Top,
    ensures
        ({
            let after = counters_after(states, events, counters);
            let under_way = if has_stepped(states.last()) {
                1int
            } else {
                0
            };
            &&& steps_done(events, actions) >= under_way
            &&& after.steps == counted(counters.steps, steps_done(events, actions) - under_way)
            &&& after.execution_nanos == counted(counters.execution_nanos, time_run(events))
            &&& after.queue_nanos == counted(counters.queue_nanos, time_waited(states, events))
        }),
        events.len() > 0 ==> (awaits_step(states.last()) <==> actions.last() matches Action::Call(
            _,
            Call::Step,
        )),
        awaits_step(states.last()) ==> !has_stepped(states.last()),
        time_run(events) >= 0,
        time_waited(states, events) >= 0,
    decreases events.len(),
{
    if events.len() == 0 {
        assert(states.last() == states[0]);
        law_counters_are_cumulative(counters.steps, 0, 0);
        law_counters_are_cumulative(counters.execution_nanos, 0, 0);
        law_counters_are_cumulative(counters.queue_nanos, 0, 0);
    } else {
        let n = events.len() - 1;
        let (earlier, before, done) = lemma_shorter_run(states, events, actions);
        law_statistics_say_what_has_happened(earlier, before, done, counters);
        lemma_of_shorter_run(states, before, actions, counters);
        assert(earlier.last() == states[n]);
        if n > 0 {
            assert(done.last() == actions[n - 1]);
        }
        lemma_steps_of_a_step(states[n], events[n], states[n + 1], actions[n]);
        lemma_counts_of_a_step(
            states[n],
            events[n],
            counters,
            counters_after(states, before, counters),
            steps_done(before, actions) - (if has_stepped(states[n]) {
                1int
            } else {
                0
            }),
            time_run(before),
            time_waited(states, before),
        );
    }
}

proof fn lemma_of_shorter_run<H, P, E>(
    states: Seq<LoopView<H, P, E>>,
    events: Seq<Event<H, P, E>>,
    actions: Seq<Action<H, P, E>>,
    counters: Counters,
)
    requires
        events.len() < states.len(),
        events.len() < actions.len(),
    ensures
        counters_after(states.drop_last(), events, counters) == counters_after(
            states,
            events,
            counters,
        ),
        time_waited(states.drop_last(), events) == time_waited(states, events),
        steps_done(events, actions.drop_last()) == steps_done(events, actions),
    decreases events.len(),
{
    if events.len() > 0 {
        lemma_of_shorter_run(states, events.drop_last(), actions, counters);
    }
}

} // verus!

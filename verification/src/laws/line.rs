//! What the line of a worker is for: who is in it, who comes next, and what a turn leaves.

use crate::channel::{Look, Message};
use crate::counters::Counters;
use crate::entry::EntryView;
use crate::laws::worker::{law_line_is_kept, Event};
use crate::worker::{charged, follows, After, Ended, Intake, WorkerView, INTAKE_LIMIT};
use vstd::prelude::*;

verus! {

/// Everyone but the circuit `id` is as they were: they live here or not, and nothing of them has
/// changed.
pub open spec fn others_alike<H, P, E>(
    before: WorkerView<H, P, E>,
    after: WorkerView<H, P, E>,
    id: u64,
) -> bool {
    forall|other: u64|
        #![trigger after.entries.contains_key(other)]
        #![trigger after.entries[other]]
        other != id ==> {
            &&& after.entries.contains_key(other) <==> before.entries.contains_key(other)
            &&& after.entries[other] == before.entries[other]
        }
}

/// Everyone is as they were.
pub open spec fn all_alike<H, P, E>(
    before: WorkerView<H, P, E>,
    after: WorkerView<H, P, E>,
) -> bool {
    forall|id: u64|
        #![trigger after.entries.contains_key(id)]
        #![trigger after.entries[id]]
        {
            &&& after.entries.contains_key(id) <==> before.entries.contains_key(id)
            &&& after.entries[id] == before.entries[id]
        }
}

/// Nothing of the circuit has changed but when it was put in line, if it is there.
pub open spec fn same_but_for_the_line<H, P, E>(
    before: EntryView<H, P, E>,
    after: EntryView<H, P, E>,
) -> bool {
    &&& after.host == before.host
    &&& after.commands == before.commands
    &&& after.transaction == before.transaction
    &&& after.elapsed == before.elapsed
    &&& after.response == before.response
    &&& after.stepped == before.stepped
    &&& after.stage == before.stage
}

/// A circuit that is woken, lives here, has not been stopped and is not in line goes to the back of
/// the line, however long the line is, and says since when. Where it is in line already, or does
/// not live here, nothing happens; where it has been stopped, it is dropped.
pub proof fn law_woken_circuits_line_up<H, P, E>(
    worker: WorkerView<H, P, E>,
    id: u64,
    stopped: bool,
    now: u128,
)
    ensures
        ({
            let after = worker.waking(id, stopped, now);
            &&& after.taken == worker.taken
            &&& others_alike(worker, after, id)
            &&& if !worker.entries.contains_key(id) {
                after.ready == worker.ready && !after.entries.contains_key(id)
            } else if stopped {
                after.ready == worker.ready && !after.entries.contains_key(id)
            } else if worker.entries[id].queued is Some {
                &&& after.ready == worker.ready
                &&& after.entries.contains_key(id)
                &&& after.entries[id] == worker.entries[id]
            } else {
                &&& after.ready.len() == worker.ready.len() + 1
                &&& after.ready.drop_last() == worker.ready
                &&& after.ready.last() == id
                &&& after.entries.contains_key(id)
                &&& after.entries[id].queued == Some(now)
                &&& same_but_for_the_line(worker.entries[id], after.entries[id])
            }
        }),
{
    let after = worker.waking(id, stopped, now);
    if after.ready.len() > worker.ready.len() {
        assert(after.ready.drop_last() =~= worker.ready);
    }
}

/// Circuits that are woken one after the other, each of which lives here, has not been stopped and
/// is not in line, are then in line in that order, behind those who were.
pub proof fn law_everyone_who_is_woken_lines_up<H, P, E>(
    worker: WorkerView<H, P, E>,
    ids: Seq<u64>,
    now: u128,
)
    requires
        ids.no_duplicates(),
        forall|i: int|
            0 <= i < ids.len() ==> worker.entries.contains_key(#[trigger] ids[i])
                && worker.entries[ids[i]].queued is None,
    ensures
        woken(worker, ids, now).ready == worker.ready + ids,
{
    lemma_woken(worker, ids, now);
}

/// The worker after these circuits were woken, the first one first.
pub open spec fn woken<H, P, E>(
    worker: WorkerView<H, P, E>,
    ids: Seq<u64>,
    now: u128,
) -> WorkerView<H, P, E>
    decreases ids.len(),
{
    if ids.len() == 0 {
        worker
    } else {
        woken(worker, ids.drop_last(), now).waking(ids.last(), false, now)
    }
}

proof fn lemma_woken<H, P, E>(worker: WorkerView<H, P, E>, ids: Seq<u64>, now: u128)
    requires
        ids.no_duplicates(),
        forall|i: int|
            0 <= i < ids.len() ==> worker.entries.contains_key(#[trigger] ids[i])
                && worker.entries[ids[i]].queued is None,
    ensures
        woken(worker, ids, now).ready == worker.ready + ids,
        forall|other: u64|
            !ids.contains(other) ==> {
                &&& #[trigger] woken(worker, ids, now).entries.contains_key(other)
                    <==> worker.entries.contains_key(other)
                &&& woken(worker, ids, now).entries[other] == worker.entries[other]
            },
    decreases ids.len(),
{
    if ids.len() == 0 {
        assert(worker.ready + ids =~= worker.ready);
    } else {
        let earlier = ids.drop_last();
        let id = ids.last();
        assert forall|i: int| 0 <= i < earlier.len() implies worker.entries.contains_key(
            #[trigger] earlier[i],
        ) && worker.entries[earlier[i]].queued is None by {
            assert(earlier[i] == ids[i]);
        }
        lemma_woken(worker, earlier, now);
        assert(worker.entries.contains_key(ids[ids.len() - 1]));
        assert(!earlier.contains(id));
        assert((worker.ready + earlier).push(id) =~= worker.ready + ids);
        assert forall|other: u64| !ids.contains(other) implies {
            &&& #[trigger] woken(worker, ids, now).entries.contains_key(other)
                <==> worker.entries.contains_key(other)
            &&& woken(worker, ids, now).entries[other] == worker.entries[other]
        } by {
            assert(ids[ids.len() - 1] == id);
            if earlier.contains(other) {
                let i = earlier.index_of(other);
                assert(ids[i] == other);
            }
        }
    }
}

/// Each message is acted on, whatever else the worker has to do: a circuit that is to be created is
/// built, one that has a command is seen to, one that is to be removed is dropped and that is
/// acknowledged where it was asked for, and the end of the pool is passed on. Nobody else is
/// touched, and the line stays as it is.
pub proof fn law_messages_are_acted_on<H, P, E>(worker: WorkerView<H, P, E>, message: Message)
    ensures
        ({
            let (after, intake) = worker.delivering(message);
            &&& after.ready == worker.ready
            &&& after.taken == worker.taken + 1
            &&& match message {
                Message::Create(id) => intake == Intake::Build(id) && all_alike(worker, after),
                Message::Wake(id) => intake == Intake::Wake(id) && all_alike(worker, after),
                Message::Remove(id, ack) => {
                    &&& intake == Intake::Acknowledge(ack)
                    &&& !after.entries.contains_key(id)
                    &&& others_alike(worker, after, id)
                },
                Message::Shutdown => intake == Intake::Stop && all_alike(worker, after),
            }
        }),
        worker.polling(Some(message)) == worker.delivering(message),
        worker.polling(None) == (worker, Intake::Idle),
{
}

/// A worker waits for a message, for a tenth of a second, exactly if nobody is in line and it has
/// taken none in this round; otherwise it only looks.
pub proof fn law_workers_wait_when_idle<H, P, E>(
    worker: WorkerView<H, P, E>,
    message: Option<Message>,
)
    ensures
        worker.look(message) == (if worker.ready.len() == 0 && worker.taken == 0 {
            Look::Within(100, message)
        } else {
            Look::Now(message)
        }),
        INTAKE_LIMIT == 64,
{
}

/// The first in line is taken out of it; if it lives here it is its turn, and nothing of it has
/// changed but that it is no longer in line. Nobody else is touched, and they all move up by one.
pub proof fn law_the_first_in_line_is_next<H, P, E>(worker: WorkerView<H, P, E>)
    ensures
        ({
            let after = worker.advancing();
            &&& after.taken == worker.taken
            &&& if worker.ready.len() == 0 {
                worker.due() is None && after.ready == worker.ready && all_alike(worker, after)
            } else {
                let id = worker.ready[0];
                &&& worker.ready == seq![id] + after.ready
                &&& if worker.entries.contains_key(id) {
                    &&& worker.due() == Some(id)
                    &&& after.entries.contains_key(id)
                    &&& after.entries[id].queued is None
                    &&& same_but_for_the_line(worker.entries[id], after.entries[id])
                    &&& others_alike(worker, after, id)
                } else {
                    worker.due() is None && all_alike(worker, after)
                }
            }
        }),
{
    if worker.ready.len() > 0 {
        assert(worker.ready =~= seq![worker.ready[0]] + worker.advancing().ready);
    }
}

/// The time that is counted as waiting is that from when the circuit whose turn it is was put in
/// line until now.
pub proof fn law_waiting_is_timed<H, P, E>(worker: WorkerView<H, P, E>, since: u128, now: u128)
    requires
        since <= now,
        worker.ready.len() > 0,
        worker.entries.contains_key(worker.ready[0]),
        worker.entries[worker.ready[0]].queued == Some(since),
    ensures
        worker.waited(now) == now - since,
{
}

/// Where nobody has a turn, or the clock went back, no waiting is counted.
pub proof fn law_no_turn_is_no_waiting<H, P, E>(worker: WorkerView<H, P, E>, now: u128)
    requires
        worker.ready.len() == 0 || !worker.entries.contains_key(worker.ready[0])
            || match worker.entries[worker.ready[0]].queued {
            Some(since) => now <= since,
            None => true,
        },
    ensures
        worker.waited(now) == 0,
{
}

/// A turn that ends adds its time to what the circuit has run before. The circuit goes to the back
/// of the line if it wants another turn, gives up its answer if it was served, and leaves if it has
/// failed; nothing else of it changes. Nobody else is touched.
pub proof fn law_turns_end_as_they_should<H, P, E>(
    worker: WorkerView<H, P, E>,
    id: u64,
    ended: Ended<E>,
    spent: u128,
    now: u128,
)
    requires
        worker.entries.contains_key(id),
        worker.entries[id].elapsed + spent <= u128::MAX,
    ensures
        ({
            let before = worker.entries[id];
            let after = worker.finished(id, ended, spent, now);
            let entry = after.entries[id];
            &&& after.taken == worker.taken
            &&& others_alike(worker, after, id)
            &&& (ended matches Ended::Returned(Err(_))) <==> !after.entries.contains_key(id)
            &&& after.entries.contains_key(id) ==> {
                &&& entry.elapsed == before.elapsed + spent
                &&& entry.host == before.host
                &&& entry.commands == before.commands
                &&& entry.transaction == before.transaction
                &&& entry.stepped == before.stepped
                &&& entry.stage == before.stage
                &&& entry.response == (if ended matches Ended::Returned(Ok(again)) && !again {
                    None
                } else {
                    before.response
                })
                &&& entry.queued == (if ended matches Ended::Returned(Ok(again)) && again {
                    Some(now)
                } else {
                    before.queued
                })
            }
            &&& if ended matches Ended::Returned(Ok(again)) && again {
                after.ready == worker.ready.push(id)
            } else {
                after.ready == worker.ready
            }
        }),
{
}

/// After a turn the thread is told what there is to tell: nothing where the circuit wants another
/// turn, its answer where it has one, its own error where it has failed, and the end of the pool
/// where it has panicked.
pub proof fn law_turns_are_followed_up<H, P, E>(
    entry: EntryView<H, P, E>,
    ended: Ended<E>,
    after: After<H, P, E>,
)
    requires
        follows(entry, ended, after),
    ensures
        after is Again <==> (ended matches Ended::Returned(Ok(again)) && again),
        after is Stop <==> ended is Panicked,
        ended matches Ended::Returned(Err(error)) ==> (after matches After::Failed(reason, dropped)
            && reason == error && dropped@ == entry),
        (ended matches Ended::Returned(Ok(again)) && !again) ==> match entry.response {
            Some(answer) => after matches After::Answer(Some(response)) && response@ == answer,
            None => after matches After::Answer(None),
        },
{
}

/// A turn counts the time that it took, and a step if the circuit has stepped in it.
pub proof fn law_turns_are_counted(counters: Counters, spent: u128, stepped: bool)
    ensures
        ({
            let after = charged(counters, spent, stepped);
            &&& after.queue_nanos == counters.queue_nanos
            &&& after.execution_nanos == (counters.execution_nanos + spent)
                % 0x1_0000_0000_0000_0000
            &&& after.steps == (counters.steps + (if stepped {
                1int
            } else {
                0
            })) % 0x1_0000_0000_0000_0000
        }),
{
}

/// On a worker that starts with nobody, nobody is ever twice in line, and those who live here and
/// are in line are those who say so.
pub proof fn law_nobody_is_twice_in_line<H, P, E>(
    worker: WorkerView<H, P, E>,
    events: Seq<Event<H, P, E>>,
)
    requires
        worker.entries == Map::<u64, EntryView<H, P, E>>::empty(),
        worker.ready == Seq::<u64>::empty(),
        worker.expects_all(events),
    ensures
        ({
            let after = worker.after_all(events);
            &&& forall|i: int, j: int|
                #![trigger after.ready[i], after.ready[j]]
                0 <= i < j < after.ready.len() ==> after.ready[i] != after.ready[j]
            &&& forall|id: u64|
                #![trigger after.entries.contains_key(id)]
                after.entries.contains_key(id) ==> (after.entries[id].queued is Some <==> exists|
                    i: int,
                | 0 <= i < after.ready.len() && #[trigger] after.ready[i] == id)
        }),
{
    law_line_is_kept(worker, events);
    let after = worker.after_all(events);
    assert forall|id: u64| #![trigger after.entries.contains_key(id)] after.entries.contains_key(
        id,
    ) implies (after.entries[id].queued is Some <==> exists|i: int|
        0 <= i < after.ready.len() && #[trigger] after.ready[i] == id) by {
        if after.ready.contains(id) {
            assert(after.ready[after.ready.index_of(id)] == id);
        }
    }
}

} // verus!

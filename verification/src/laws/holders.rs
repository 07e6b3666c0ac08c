//! What a pool is for to those who hold it: what each operation changes of it, and what it tells.

use crate::channel::{Message, Post, Received};
use crate::counters::Counters;
use crate::error::{Error, ThreadType, WorkerPanicInfo};
use crate::pool::{
    least_loaded, panics, settling, total, Join, PanicReport, PoolView, Settled, INIT_MILLIS,
};
use vstd::prelude::*;

verus! {

/// The worker that gets a circuit is one that has the fewest, and the first of those.
pub proof fn law_the_least_loaded_worker_is_chosen(loads: Seq<usize>, worker: int)
    ensures
        least_loaded(loads, worker) <==> {
            &&& 0 <= worker < loads.len()
            &&& forall|other: int|
                #![trigger loads[other]]
                0 <= other < loads.len() ==> loads[worker] < loads[other] || (loads[worker]
                    == loads[other] && worker <= other)
        },
{
    if 0 <= worker < loads.len() && forall|other: int|
        #![trigger loads[other]]
        0 <= other < loads.len() ==> loads[worker] < loads[other] || (loads[worker]
            == loads[other] && worker <= other) {
        assert(least_loaded(loads, worker));
    }
}

/// A circuit that comes to a worker changes nothing but that worker's load, by one; and so does one
/// that leaves it.
pub proof fn law_circuits_come_and_go_one_by_one(pool: PoolView, worker: int, other: int)
    requires
        0 <= worker < pool.loads.len(),
        0 <= other < pool.loads.len(),
    ensures
        ({
            let placed = pool.placing(worker);
            &&& placed == (PoolView { loads: placed.loads, ..pool })
            &&& placed.loads.len() == pool.loads.len()
            &&& other != worker ==> placed.loads[other] == pool.loads[other]
            &&& pool.loads[worker] < usize::MAX ==> placed.loads[worker] == pool.loads[worker] + 1
        }),
        ({
            let released = pool.releasing(worker);
            &&& released == (PoolView { loads: released.loads, ..pool })
            &&& released.loads.len() == pool.loads.len()
            &&& other != worker ==> released.loads[other] == pool.loads[other]
            &&& pool.loads[worker] > 0 ==> released.loads[worker] == pool.loads[worker] - 1
        }),
{
}

/// The number of circuits that are registered is the sum of what the workers have.
pub proof fn law_registered_circuits_add_up(loads: Seq<usize>, more: usize)
    ensures
        total(Seq::empty()) == 0,
        total(loads.push(more)) == total(loads) + more,
{
    assert(loads.push(more).drop_last() =~= loads);
}

/// Numbering a circuit changes nothing but the next number, which is one more; after the last
/// number it is the first again.
pub proof fn law_numbers_go_up(pool: PoolView)
    ensures
        ({
            let after = pool.numbering();
            &&& after == (PoolView { next_id: after.next_id, ..pool })
            &&& pool.next_id < u64::MAX ==> after.next_id == pool.next_id + 1
            &&& pool.next_id == u64::MAX ==> after.next_id == 0
        }),
{
}

/// Sending a message to a worker changes nothing but what that worker was sent, by that message,
/// and by whether it was taken.
pub proof fn law_messages_are_sent_as_they_are(
    pool: PoolView,
    worker: int,
    message: Message,
    taken: bool,
    other: int,
)
    requires
        0 <= worker < pool.mail.len(),
        0 <= other < pool.mail.len(),
    ensures
        ({
            let after = pool.posting(worker, message, taken);
            &&& after == (PoolView { mail: after.mail, ..pool })
            &&& after.mail.len() == pool.mail.len()
            &&& other != worker ==> after.mail[other] == pool.mail[other]
            &&& after.mail[worker].len() == pool.mail[worker].len() + 1
            &&& after.mail[worker].drop_last() == pool.mail[worker]
            &&& after.mail[worker].last() == (Post { message, taken })
            &&& after.reached(worker) == taken
        }),
{
    let after = pool.posting(worker, message, taken);
    assert(after.mail[worker].drop_last() =~= pool.mail[worker]);
}

/// What a worker has counted is added to what was counted before, and nothing else changes.
pub proof fn law_counts_are_added(pool: PoolView, counters: Counters)
    ensures
        ({
            let after = pool.counting(counters);
            let range = 0x1_0000_0000_0000_0000int;
            &&& after == (PoolView { counters: after.counters, ..pool })
            &&& after.counters.steps == (pool.counters.steps + counters.steps) % range
            &&& after.counters.queue_nanos == (pool.counters.queue_nanos + counters.queue_nanos)
                % range
            &&& after.counters.execution_nanos == (pool.counters.execution_nanos
                + counters.execution_nanos) % range
        }),
{
}

/// Stopping a pool changes nothing but that it no longer runs. Whoever stops it first waits for its
/// threads: not at all, but by a thread of its own, on a thread of the pool; by a thread of its own
/// from an executor; and otherwise right there. Whoever comes later does not wait.
pub proof fn law_pools_are_stopped_by_the_first(
    pool: PoolView,
    on_pool_thread: bool,
    in_executor: bool,
)
    ensures
        !pool.stopped().running,
        pool.stopped() == (PoolView { running: pool.stopped().running, ..pool }),
        pool.joining(on_pool_thread, in_executor) is None <==> !pool.running,
        pool.running ==> {
            &&& pool.joining(true, in_executor) == Some(Join::Detached)
            &&& pool.joining(false, true) == Some(Join::Helper)
            &&& pool.joining(false, false) == Some(Join::Here)
        },
{
}

/// Telling the workers to stop tells each of them, once, and nothing else.
pub proof fn law_all_workers_are_told_once(before: PoolView, after: PoolView, worker: int)
    requires
        after.notified(before),
        0 <= worker < before.mail.len(),
    ensures
        after == (PoolView { mail: after.mail, ..before }),
        after.mail.len() == before.mail.len(),
        after.mail[worker].len() == before.mail[worker].len() + 1,
        after.mail[worker].drop_last() == before.mail[worker],
        after.mail[worker].last().message == Message::Shutdown,
{
    assert(after.mail[worker].drop_last() =~= before.mail[worker]);
}

/// Waiting for a circuit comes to what was said of it, if anything was; if nothing came in time, to
/// waiting on while the pool runs, and to the loss of the circuit otherwise; and to its loss where
/// nobody is left to say anything. Each wait is for a tenth of a second.
pub proof fn law_waiting_comes_to_what_is_said<T, E>(circuit: T, error: Error<E>, stopped: bool)
    ensures
        settling::<T, E>(Received::Message(Ok(circuit)), stopped) == Settled::<T, E>::Ready(
            circuit,
        ),
        settling::<T, E>(Received::Message(Err(error)), stopped) == Settled::<T, E>::Failed(error),
        settling::<T, E>(Received::TimedOut, false) is Again,
        settling::<T, E>(Received::TimedOut, true) is Lost,
        settling::<T, E>(Received::Disconnected, stopped) is Lost,
        INIT_MILLIS == 100,
{
}

/// What is known of a panic on this thread of this worker.
pub open spec fn known(
    reports: Seq<PanicReport>,
    worker: int,
    kind: ThreadType,
) -> Option<WorkerPanicInfo> {
    match kind {
        ThreadType::Foreground => reports[worker].foreground,
        ThreadType::Background => reports[worker].background,
    }
}

/// One thread comes before the other: that of an earlier worker does, and of one worker's threads
/// the foreground one.
pub open spec fn comes_before(
    first: (usize, ThreadType, WorkerPanicInfo),
    second: (usize, ThreadType, WorkerPanicInfo),
) -> bool {
    first.0 < second.0 || (first.0 == second.0 && first.1 == ThreadType::Foreground && second.1
        == ThreadType::Background)
}

/// The panics that are listed are those that are known, each of them once, by worker, and the
/// foreground thread's first.
pub proof fn law_all_panics_are_listed(reports: Seq<PanicReport>)
    requires
        reports.len() <= usize::MAX,
    ensures
        forall|i: int|
            0 <= i < panics(reports).len() ==> {
                let (worker, kind, info) = #[trigger] panics(reports)[i];
                worker < reports.len() && known(reports, worker as int, kind) == Some(info)
            },
        forall|worker: int, kind: ThreadType|
            0 <= worker < reports.len() && #[trigger] known(reports, worker, kind) is Some
                ==> exists|i: int|
                0 <= i < panics(reports).len() && #[trigger] panics(reports)[i] == (
                    worker as usize,
                    kind,
                    known(reports, worker, kind)->0,
                ),
        forall|i: int, j: int|
            0 <= i < j < panics(reports).len() ==> comes_before(
                #[trigger] panics(reports)[i],
                #[trigger] panics(reports)[j],
            ),
    decreases reports.len(),
{
    if reports.len() > 0 {
        let earlier = reports.drop_last();
        let last = reports.len() - 1;
        law_all_panics_are_listed(earlier);
        let before = panics(earlier);
        let all = panics(reports);
        let here = crate::pool::panics_of(last as usize, reports.last());
        assert(all == before + here);
        assert forall|i: int| 0 <= i < all.len() implies {
            let (worker, kind, info) = #[trigger] all[i];
            worker < reports.len() && known(reports, worker as int, kind) == Some(info)
        } by {
            if i < before.len() {
                assert(all[i] == before[i]);
                let (worker, kind, info) = before[i];
                assert(known(earlier, worker as int, kind) == known(reports, worker as int, kind));
            } else {
                assert(all[i] == here[i - before.len()]);
            }
        }
        assert forall|worker: int, kind: ThreadType|
            0 <= worker < reports.len() && #[trigger] known(reports, worker, kind)
                is Some implies exists|i: int|
            0 <= i < all.len() && #[trigger] all[i] == (
                worker as usize,
                kind,
                known(reports, worker, kind)->0,
            ) by {
            if worker < last {
                assert(known(earlier, worker, kind) == known(reports, worker, kind));
                let i = choose|i: int|
                    0 <= i < before.len() && #[trigger] before[i] == (
                        worker as usize,
                        kind,
                        known(earlier, worker, kind)->0,
                    );
                assert(all[i] == before[i]);
            } else {
                let at = if kind == ThreadType::Foreground || reports.last().foreground is None {
                    0int
                } else {
                    1
                };
                assert(all[before.len() + at] == here[at]);
            }
        }
        assert forall|i: int, j: int| 0 <= i < j < all.len() implies comes_before(
            #[trigger] all[i],
            #[trigger] all[j],
        ) by {
            if j < before.len() {
                assert(comes_before(before[i], before[j]));
            } else if i < before.len() {
                assert(all[i] == before[i]);
                assert(all[j] == here[j - before.len()]);
            } else {
                assert(all[i] == here[i - before.len()]);
                assert(all[j] == here[j - before.len()]);
            }
        }
    }
}

} // verus!

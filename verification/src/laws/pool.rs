//! What a pool keeps to.

use crate::channel::{Message, Post};
use crate::counters::{counted, counter_range, Counters};
use crate::laws::worker::{law_unbuilt_circuits_do_not_live, Event};
use crate::pool::{least_loaded, total, Join, PoolView};
use crate::worker::WorkerView;
use vstd::arithmetic::div_mod::{
    lemma_add_mod_noop_right, lemma_fundamental_div_mod, lemma_fundamental_div_mod_converse,
    lemma_multiply_divide_lt,
};
use vstd::prelude::*;

verus! {

/// No worker has two circuits more than another.
pub open spec fn balanced(loads: Seq<usize>) -> bool {
    forall|i: int, j: int|
        #![trigger loads[i], loads[j]]
        0 <= i < loads.len() && 0 <= j < loads.len() ==> loads[i] <= loads[j] + 1
}

/// A circuit comes to a worker, or leaves it.
pub enum Move {
    /// `RuntimePool::init` gave this worker a circuit.
    Placed(int),
    /// `RuntimePool::release` gave back a circuit's share of this worker.
    Released(int),
}

impl Move {
    /// The worker that it is about.
    pub open spec fn worker(self) -> int {
        match self {
            Move::Placed(worker) => worker,
            Move::Released(worker) => worker,
        }
    }
}

/// How many circuits have come to `worker` and not left it.
pub open spec fn resident(moves: Seq<Move>, worker: int) -> int
    decreases moves.len(),
{
    if moves.len() == 0 {
        0
    } else {
        resident(moves.drop_last(), worker) + (if moves.last().worker() != worker {
            0int
        } else if moves.last() is Placed {
            1
        } else {
            -1
        })
    }
}

impl PoolView {
    /// The pool after some moves, the first one first.
    pub open spec fn after_moves(self, moves: Seq<Move>) -> Self
        decreases moves.len(),
    {
        if moves.len() == 0 {
            self
        } else {
            let before = self.after_moves(moves.drop_last());
            match moves.last() {
                Move::Placed(worker) => before.placing(worker),
                Move::Released(worker) => before.releasing(worker),
            }
        }
    }
}

/// The moves make sense for `n_workers` workers: circuits leave only where they came, and no
/// worker ever has more of them than can be counted.
pub open spec fn sensible(moves: Seq<Move>, n_workers: int) -> bool
    decreases moves.len(),
{
    moves.len() > 0 ==> {
        &&& sensible(moves.drop_last(), n_workers)
        &&& 0 <= moves.last().worker() < n_workers
        &&& 0 <= resident(moves, moves.last().worker()) <= usize::MAX
    }
}

/// A worker's load is the number of circuits that live on it: those that came and have not left.
pub proof fn law_loads_count_residents(pool: PoolView, moves: Seq<Move>)
    requires
        forall|worker: int| 0 <= worker < pool.loads.len() ==> #[trigger] pool.loads[worker] == 0,
        sensible(moves, pool.loads.len() as int),
    ensures
        pool.after_moves(moves).loads.len() == pool.loads.len(),
        forall|worker: int|
            0 <= worker < pool.loads.len() ==> #[trigger] pool.after_moves(moves).loads[worker]
                == resident(moves, worker),
    decreases moves.len(),
{
    if moves.len() > 0 {
        law_loads_count_residents(pool, moves.drop_last());
    }
}

/// A pool whose circuits have all left has none registered.
pub proof fn law_empty_pools_have_none_registered(pool: PoolView, moves: Seq<Move>)
    requires
        forall|worker: int| 0 <= worker < pool.loads.len() ==> #[trigger] pool.loads[worker] == 0,
        sensible(moves, pool.loads.len() as int),
        forall|worker: int|
            0 <= worker < pool.loads.len() ==> #[trigger] resident(moves, worker) == 0,
    ensures
        total(pool.after_moves(moves).loads) == 0,
{
    law_loads_count_residents(pool, moves);
    lemma_total_of_zeros(pool.after_moves(moves).loads);
}

proof fn lemma_total_of_zeros(loads: Seq<usize>)
    requires
        forall|worker: int| 0 <= worker < loads.len() ==> #[trigger] loads[worker] == 0,
    ensures
        total(loads) == 0,
    decreases loads.len(),
{
    if loads.len() > 0 {
        lemma_total_of_zeros(loads.drop_last());
    }
}

proof fn lemma_total_of_update(loads: Seq<usize>, worker: int, load: usize)
    requires
        0 <= worker < loads.len(),
    ensures
        total(loads.update(worker, load)) == total(loads) - loads[worker] + load,
    decreases loads.len(),
{
    let updated = loads.update(worker, load);
    if worker == loads.len() - 1 {
        assert(updated.drop_last() =~= loads.drop_last());
    } else {
        assert(updated.drop_last() =~= loads.drop_last().update(worker, load));
        lemma_total_of_update(loads.drop_last(), worker, load);
    }
}

/// A circuit that is placed is one more registered.
pub proof fn law_placing_registers_one(pool: PoolView, worker: int)
    requires
        0 <= worker < pool.loads.len(),
        pool.loads[worker] < usize::MAX,
    ensures
        total(pool.placing(worker).loads) == total(pool.loads) + 1,
{
    lemma_total_of_update(pool.loads, worker, pool.loads[worker].wrapping_add(1));
}

/// A circuit that is released is one less registered.
pub proof fn law_releasing_registers_one_less(pool: PoolView, worker: int)
    requires
        0 <= worker < pool.loads.len(),
        pool.loads[worker] > 0,
    ensures
        total(pool.releasing(worker).loads) == total(pool.loads) - 1,
{
    lemma_total_of_update(pool.loads, worker, pool.loads[worker].wrapping_sub(1));
}

/// Releasing undoes placing.
pub proof fn law_releasing_undoes_placing(pool: PoolView, worker: int)
    requires
        0 <= worker < pool.loads.len(),
    ensures
        pool.placing(worker).releasing(worker) == pool,
{
}

/// Circuits are spread evenly: as long as none leaves, no worker gets two more than another.
pub proof fn law_placing_keeps_balance(pool: PoolView, worker: int)
    requires
        balanced(pool.loads),
        least_loaded(pool.loads, worker),
        pool.loads[worker] < usize::MAX,
    ensures
        balanced(pool.placing(worker).loads),
{
}

impl PoolView {
    /// The pool after circuits were placed on these workers, the first one first.
    pub open spec fn after_placing(self, placed: Seq<int>) -> Self
        decreases placed.len(),
    {
        if placed.len() == 0 {
            self
        } else {
            self.after_placing(placed.drop_last()).placing(placed.last())
        }
    }

    /// Each of these workers was the one to choose when a circuit was placed on it.
    pub open spec fn places(self, placed: Seq<int>) -> bool
        decreases placed.len(),
    {
        placed.len() > 0 ==> {
            &&& self.places(placed.drop_last())
            &&& least_loaded(self.after_placing(placed.drop_last()).loads, placed.last())
        }
    }
}

/// A new pool is filled in turn: its circuits go to the first worker, the second and so on, and
/// then to the first again. So at all times the loads differ by one at most, and add up to the
/// number of circuits. That is so until the last worker has as many as can be counted.
pub proof fn law_new_pools_are_filled_in_turn(pool: PoolView, placed: Seq<int>)
    requires
        pool.loads.len() > 0,
        forall|worker: int| 0 <= worker < pool.loads.len() ==> #[trigger] pool.loads[worker] == 0,
        pool.places(placed),
        placed.len() <= pool.loads.len() * usize::MAX,
    ensures
        forall|k: int|
            0 <= k < placed.len() ==> #[trigger] placed[k] == k % (pool.loads.len() as int),
        ({
            let loads = pool.after_placing(placed).loads;
            let n = pool.loads.len() as int;
            &&& loads.len() == n
            &&& forall|worker: int|
                0 <= worker < n ==> #[trigger] loads[worker] == placed.len() as int / n + (
                if worker < placed.len() as int % n {
                    1int
                } else {
                    0
                })
            &&& balanced(loads)
            &&& total(loads) == placed.len()
        }),
    decreases placed.len(),
{
    let n = pool.loads.len() as int;
    if placed.len() == 0 {
        assert(0int / n == 0 && 0int % n == 0) by (nonlinear_arith)
            requires
                n > 0,
        ;
        lemma_total_of_zeros(pool.loads);
    } else {
        let earlier = placed.drop_last();
        let k = earlier.len() as int;
        law_new_pools_are_filled_in_turn(pool, earlier);
        let before = pool.after_placing(earlier);
        let worker = placed.last();
        let turn = k % n;
        assert(0 <= turn < n) by (nonlinear_arith)
            requires
                n > 0,
                turn == k % n,
        ;
        assert(before.loads[turn] == k / n);
        lemma_multiply_divide_lt(k, n, usize::MAX as int);
        law_placing_registers_one(before, worker);
        law_placing_keeps_balance(before, worker);
        lemma_next_turn(k, n);
        assert forall|i: int| 0 <= i < placed.len() implies #[trigger] placed[i] == i % n by {
            if i < k {
                assert(earlier[i] == placed[i]);
            }
        }
    }
}

proof fn lemma_next_turn(k: int, n: int)
    requires
        k >= 0,
        n > 0,
    ensures
        k % n + 1 < n ==> (k + 1) / n == k / n && (k + 1) % n == k % n + 1,
        k % n + 1 == n ==> (k + 1) / n == k / n + 1 && (k + 1) % n == 0,
{
    lemma_fundamental_div_mod(k, n);
    let q = k / n;
    let r = k % n;
    if r + 1 < n {
        assert(k + 1 == q * n + (r + 1)) by (nonlinear_arith)
            requires
                k == n * q + r,
        ;
        lemma_fundamental_div_mod_converse(k + 1, n, q, r + 1);
    } else if r + 1 == n {
        assert(k + 1 == (q + 1) * n + 0) by (nonlinear_arith)
            requires
                k == n * q + r,
                r + 1 == n,
        ;
        lemma_fundamental_div_mod_converse(k + 1, n, q + 1, 0);
    }
}

/// The moves are about workers that there are.
pub open spec fn within(moves: Seq<Move>, n_workers: int) -> bool {
    forall|i: int| 0 <= i < moves.len() ==> 0 <= #[trigger] moves[i].worker() < n_workers
}

proof fn lemma_moves_in_two_parts(pool: PoolView, first: Seq<Move>, second: Seq<Move>)
    ensures
        pool.after_moves(first + second) == pool.after_moves(first).after_moves(second),
    decreases second.len(),
{
    if second.len() == 0 {
        assert(first + second =~= first);
    } else {
        assert((first + second).drop_last() =~= first + second.drop_last());
        lemma_moves_in_two_parts(pool, first, second.drop_last());
    }
}

proof fn lemma_moves_keep_workers(pool: PoolView, moves: Seq<Move>)
    requires
        within(moves, pool.loads.len() as int),
    ensures
        pool.after_moves(moves).loads.len() == pool.loads.len(),
    decreases moves.len(),
{
    if moves.len() > 0 {
        let earlier = moves.drop_last();
        assert(within(earlier, pool.loads.len() as int));
        lemma_moves_keep_workers(pool, earlier);
        assert(0 <= moves[moves.len() - 1].worker() < pool.loads.len());
    }
}

proof fn lemma_placing_commutes(pool: PoolView, worker: int, moves: Seq<Move>)
    requires
        0 <= worker < pool.loads.len(),
        within(moves, pool.loads.len() as int),
    ensures
        pool.placing(worker).after_moves(moves) == pool.after_moves(moves).placing(worker),
    decreases moves.len(),
{
    if moves.len() > 0 {
        let earlier = moves.drop_last();
        assert(within(earlier, pool.loads.len() as int));
        lemma_placing_commutes(pool, worker, earlier);
        lemma_moves_keep_workers(pool, earlier);
        assert(0 <= moves[moves.len() - 1].worker() < pool.loads.len());
        assert(pool.placing(worker).after_moves(moves).loads =~= pool.after_moves(moves).placing(
            worker,
        ).loads);
    }
}

/// No lease is leaked: once a circuit that was placed has been released, for whatever reason and
/// whatever came and went meanwhile, the loads are what they would be if it had never come.
pub proof fn law_released_leases_leave_no_trace(
    pool: PoolView,
    earlier: Seq<Move>,
    worker: int,
    meanwhile: Seq<Move>,
    later: Seq<Move>,
)
    requires
        0 <= worker < pool.loads.len(),
        within(earlier, pool.loads.len() as int),
        within(meanwhile, pool.loads.len() as int),
    ensures
        pool.after_moves(
            earlier + seq![Move::Placed(worker)] + meanwhile + seq![Move::Released(worker)] + later,
        ) == pool.after_moves(earlier + meanwhile + later),
{
    let placed = seq![Move::Placed(worker)];
    let released = seq![Move::Released(worker)];
    let before = pool.after_moves(earlier);
    lemma_moves_in_two_parts(pool, earlier + placed + meanwhile + released, later);
    lemma_moves_in_two_parts(pool, earlier + placed + meanwhile, released);
    lemma_moves_in_two_parts(pool, earlier + placed, meanwhile);
    lemma_moves_in_two_parts(pool, earlier, placed);
    lemma_moves_in_two_parts(pool, earlier + meanwhile, later);
    lemma_moves_in_two_parts(pool, earlier, meanwhile);
    lemma_moves_keep_workers(pool, earlier);
    lemma_moves_keep_workers(before, meanwhile);
    assert(before.after_moves(placed) == before.after_moves(placed.drop_last()).placing(worker));
    let after = before.placing(worker).after_moves(meanwhile);
    assert(after.after_moves(released) == after.after_moves(released.drop_last()).releasing(
        worker,
    ));
    lemma_placing_commutes(before, worker, meanwhile);
    law_releasing_undoes_placing(before.after_moves(meanwhile), worker);
}

/// A registration that fails leaves nothing: where its circuit was placed and is not built, for
/// whatever reason, giving back the lease restores the pool, and the circuit lives nowhere,
/// whatever else its worker does.
pub proof fn law_failed_registrations_leave_nothing<H, P, E>(
    pool: PoolView,
    place: int,
    worker: WorkerView<H, P, E>,
    events: Seq<Event<H, P, E>>,
    id: u64,
)
    requires
        least_loaded(pool.loads, place),
        !worker.entries.contains_key(id),
        worker.expects_all(events),
        forall|i: int|
            0 <= i < events.len() ==> !(#[trigger] events[i] matches Event::Build(built, Some(_))
                && built == id),
    ensures
        pool.placing(place).releasing(place) == pool,
        !worker.after_all(events).entries.contains_key(id),
{
    law_releasing_undoes_placing(pool, place);
    law_unbuilt_circuits_do_not_live(worker, events, id);
}

/// Where a circuit is placed is settled by the loads alone.
pub proof fn law_placement_is_determined(loads: Seq<usize>, first: int, second: int)
    requires
        least_loaded(loads, first),
        least_loaded(loads, second),
    ensures
        first == second,
{
    assert(loads[first] == loads[second]);
}

/// The number that the pool gives out after `n` others.
pub open spec fn nth_id(pool: PoolView, n: nat) -> u64
    decreases n,
{
    if n == 0 {
        pool.next_id
    } else {
        nth_id(pool, (n - 1) as nat).wrapping_add(1)
    }
}

proof fn lemma_nth_id(pool: PoolView, n: nat)
    ensures
        nth_id(pool, n) == (pool.next_id + n) % counter_range(),
    decreases n,
{
    if n > 0 {
        lemma_nth_id(pool, (n - 1) as nat);
    }
}

/// Circuits have different numbers, unless as many were numbered between them as there are
/// numbers.
pub proof fn law_circuits_are_told_apart(pool: PoolView, first: nat, second: nat)
    requires
        first < second < first + counter_range(),
    ensures
        nth_id(pool, first) != nth_id(pool, second),
{
    lemma_nth_id(pool, first);
    lemma_nth_id(pool, second);
}

/// A message reaches the worker that it is for, behind those that were sent before, and no other.
pub proof fn law_messages_reach_one_worker(
    pool: PoolView,
    worker: int,
    message: Message,
    taken: bool,
    other: int,
)
    requires
        0 <= worker < pool.mail.len(),
        0 <= other < pool.mail.len(),
    ensures
        pool.posting(worker, message, taken).mail[other] == (if other == worker {
            pool.mail[other].push(Post { message, taken })
        } else {
            pool.mail[other]
        }),
{
}

/// Every worker is told to stop, after everything that it was told before.
pub proof fn law_every_worker_is_told_to_stop(before: PoolView, after: PoolView, worker: int)
    requires
        after.notified(before),
        0 <= worker < before.mail.len(),
    ensures
        after.mail[worker].drop_last() == before.mail[worker],
        after.mail[worker].last().message == Message::Shutdown,
{
}

/// Stopping a pool again is harmless: there is nothing left to do, and nothing changes.
pub proof fn law_stopping_twice_is_stopping_once(
    pool: PoolView,
    on_pool_thread: bool,
    in_executor: bool,
)
    ensures
        pool.stopped().joining(on_pool_thread, in_executor) is None,
        pool.stopped().stopped() == pool.stopped(),
{
}

/// A thread of the pool never waits for the pool's threads, of which it is one.
pub proof fn law_threads_do_not_wait_for_themselves(pool: PoolView, in_executor: bool)
    ensures
        pool.joining(true, in_executor) == (if pool.running {
            Some(Join::Detached)
        } else {
            None
        }),
{
}

/// One thing that is done with a pool.
pub enum Step {
    /// A circuit comes to a worker, by `RuntimePool::init`, or leaves it, by
    /// `RuntimePool::release`.
    Move(Move),
    /// `RuntimePool::register`.
    Number,
    /// `RuntimePool::create`, `Registration::wake` or `Registration::remove`.
    Post(int, Message, bool),
    /// `RuntimePool::shutdown` or `RuntimePool::let_go`.
    Stop,
    /// `RuntimePool::notify_shutdown`, after which the pool is this one.
    Notify(PoolView),
    /// `RuntimePool::count`.
    Count(Counters),
}

impl PoolView {
    /// The pool after a step.
    pub open spec fn after_step(self, step: Step) -> Self {
        match step {
            Step::Move(Move::Placed(worker)) => self.placing(worker),
            Step::Move(Move::Released(worker)) => self.releasing(worker),
            Step::Number => self.numbering(),
            Step::Post(worker, message, taken) => self.posting(worker, message, taken),
            Step::Stop => self.stopped(),
            Step::Notify(after) => after,
            Step::Count(counters) => self.counting(counters),
        }
    }

    /// The step can be taken, and no counter starts again with it.
    pub open spec fn allows(self, step: Step) -> bool {
        match step {
            Step::Notify(after) => after.notified(self),
            Step::Count(counters) => {
                &&& self.counters.steps + counters.steps < counter_range()
                &&& self.counters.queue_nanos + counters.queue_nanos < counter_range()
                &&& self.counters.execution_nanos + counters.execution_nanos < counter_range()
            },
            _ => true,
        }
    }

    /// The pool after some steps, the first one first.
    pub open spec fn after_steps(self, steps: Seq<Step>) -> Self
        decreases steps.len(),
    {
        if steps.len() == 0 {
            self
        } else {
            self.after_steps(steps.drop_last()).after_step(steps.last())
        }
    }

    /// Each of the steps can be taken.
    pub open spec fn allows_all(self, steps: Seq<Step>) -> bool
        decreases steps.len(),
    {
        steps.len() > 0 ==> {
            &&& self.allows_all(steps.drop_last())
            &&& self.after_steps(steps.drop_last()).allows(steps.last())
        }
    }
}

/// Statistics never fall, whatever is done with the pool, before it is stopped and afterwards; and
/// where no worker has counted anything, they stay what they are. The numbers of threads never
/// change.
pub proof fn law_statistics_never_fall(pool: PoolView, steps: Seq<Step>)
    requires
        pool.allows_all(steps),
    ensures
        ({
            let after = pool.after_steps(steps);
            &&& after.config == pool.config
            &&& after.counters.steps >= pool.counters.steps
            &&& after.counters.queue_nanos >= pool.counters.queue_nanos
            &&& after.counters.execution_nanos >= pool.counters.execution_nanos
            &&& (forall|i: int| 0 <= i < steps.len() ==> !(#[trigger] steps[i] is Count))
                ==> after.counters == pool.counters
        }),
    decreases steps.len(),
{
    if steps.len() > 0 {
        let earlier = steps.drop_last();
        law_statistics_never_fall(pool, earlier);
        if let Step::Count(counters) = steps.last() {
            let before = pool.after_steps(earlier).counters;
            law_counters_are_cumulative(before.steps, counters.steps as int, 0);
            law_counters_are_cumulative(before.queue_nanos, counters.queue_nanos as int, 0);
            law_counters_are_cumulative(
                before.execution_nanos,
                counters.execution_nanos as int,
                0,
            );
        }
    }
}

/// What was counted adds up.
pub proof fn law_counters_are_cumulative(total: u64, first: int, second: int)
    requires
        0 <= first,
        0 <= second,
    ensures
        counted(counted(total, first), second) == counted(total, first + second),
        total + first < counter_range() ==> counted(total, first) == total + first,
{
    lemma_add_mod_noop_right(second, total + first, counter_range());
}

} // verus!

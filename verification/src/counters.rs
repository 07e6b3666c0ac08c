//! Counters of what a pool has done.

use std::time::Duration;
use vstd::arithmetic::div_mod::lemma_add_mod_noop_right;
use vstd::prelude::*;

verus! {

/// How many values a 64-bit counter takes before it starts again.
pub open spec fn counter_range() -> int {
    0x1_0000_0000_0000_0000
}

/// The counter `total` after `amount` was added: it starts again from zero where it would not fit.
pub open spec fn counted(total: u64, amount: int) -> u64 {
    ((total + amount) % counter_range()) as u64
}

/// Scheduling counters, shared by all workers of a pool.
#[derive(Clone, Copy, Debug, PartialEq, Eq, Structural)]
pub struct Counters {
    /// Steps completed.
    pub steps: u64,
    /// Time that circuits spent in ready queues, in nanoseconds.
    pub queue_nanos: u64,
    /// Time that circuits ran, in nanoseconds.
    pub execution_nanos: u64,
}

impl Counters {
    /// Counters of a pool that has done nothing.
    pub fn zero() -> (counters: Self)
        ensures
            counters == (Counters { steps: 0, queue_nanos: 0, execution_nanos: 0 }),
    {
        Counters { steps: 0, queue_nanos: 0, execution_nanos: 0 }
    }

    /// Count a completed step.
    pub fn count_step(&mut self)
        ensures
            *final(self) == (Counters { steps: counted(old(self).steps, 1), ..*old(self) }),
    {
        self.steps = accumulate(self.steps, 1);
    }

    /// Count time spent in a ready queue.
    pub fn count_queue(&mut self, nanos: u128)
        ensures
            *final(self) == (Counters {
                queue_nanos: counted(old(self).queue_nanos, nanos as int),
                ..*old(self)
            }),
    {
        self.queue_nanos = accumulate(self.queue_nanos, nanos);
    }

    /// Count time spent running.
    pub fn count_execution(&mut self, nanos: u128)
        ensures
            *final(self) == (Counters {
                execution_nanos: counted(old(self).execution_nanos, nanos as int),
                ..*old(self)
            }),
    {
        self.execution_nanos = accumulate(self.execution_nanos, nanos);
    }

    /// Count what was counted elsewhere.
    pub fn merge(&mut self, other: Counters)
        ensures
            *final(self) == old(self).merging(other),
    {
        self.steps = accumulate(self.steps, other.steps as u128);
        self.queue_nanos = accumulate(self.queue_nanos, other.queue_nanos as u128);
        self.execution_nanos = accumulate(self.execution_nanos, other.execution_nanos as u128);
    }

    /// These counters, after what was counted on others was added.
    pub open spec fn merging(self, other: Counters) -> Counters {
        Counters {
            steps: counted(self.steps, other.steps as int),
            queue_nanos: counted(self.queue_nanos, other.queue_nanos as int),
            execution_nanos: counted(self.execution_nanos, other.execution_nanos as int),
        }
    }
}

fn accumulate(total: u64, amount: u128) -> (sum: u64)
    ensures
        sum == counted(total, amount as int),
{
    let low = #[verifier::truncate] (amount as u64);
    proof {
        assert(low == amount % 0x1_0000_0000_0000_0000) by (bit_vector)
            requires
                low == amount as u64,
        ;
        lemma_add_mod_noop_right(total as int, amount as int, counter_range());
    }
    total.wrapping_add(low)
}

/// The length of a duration in nanoseconds, as `Duration::as_nanos` gives it.
pub uninterp spec fn nanos_of(duration: Duration) -> nat;

/// `std::time::Duration::from_nanos`. Claimed of it: the duration is that many nanoseconds long.
pub assume_specification[ Duration::from_nanos ](nanos: u64) -> (duration: Duration)
    ensures
        nanos_of(duration) == nanos,
;

/// Aggregate pool counters. Queue time and execution time are cumulative.
#[derive(Clone, Copy, Debug)]
pub struct PoolStats {
    pub registered_circuits: usize,
    pub foreground_threads: usize,
    pub merger_threads: usize,
    pub completed_steps: u64,
    pub queue_time: Duration,
    pub execution_time: Duration,
}

} // verus!

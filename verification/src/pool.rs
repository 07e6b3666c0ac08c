//! A pool: where circuits are placed, how its workers are told, and how it ends.

use crate::channel::{
    looks, never_full, paired, posted, send, unbounded, Look, Message, Pending, Post, Received,
};
use crate::config::{rejects, validate, CircuitConfig, PoolConfig, PoolConfigView};
use crate::counters::{nanos_of, Counters, PoolStats};
use crate::entry::queue;
use crate::error::{
    invalid, is_invalid, is_terminated, is_unsupported, terminated, unsupported, Error,
    RuntimeError, ThreadType, WorkerPanicInfo,
};
use crossbeam::channel::{Receiver, Sender};
use std::collections::VecDeque;
use std::time::Duration;
use vstd::prelude::*;

verus! {

/// How long the founder of a circuit waits before looking whether the pool still runs.
pub const INIT_MILLIS: u64 = 100;

/// What has to be run for a pool to come to life.
pub struct Launch {
    /// The configuration of the runtime that provides the pool's threads.
    pub circuit: CircuitConfig,
    /// The total buffer-cache budget, in MiB.
    pub cache_mib: usize,
    /// One mailbox for each worker.
    pub mailboxes: Vec<Receiver<Message>>,
}

/// How the threads of a pool that was stopped are to be waited for.
#[derive(Clone, Copy, Debug, PartialEq, Eq, Structural)]
pub enum Join {
    /// By the caller.
    Here,
    /// By a thread of its own, for which the caller waits: the caller runs an asynchronous
    /// executor, in which a runtime must not be dropped.
    Helper,
    /// By a thread of its own, for which nobody waits: the caller is one of the threads.
    Detached,
}

/// A circuit's share of a worker, to be given back when the circuit is dropped.
pub struct LoadLease {
    pub worker: usize,
}

/// A circuit's place in a pool.
#[derive(Clone, Copy, Debug, PartialEq, Eq, Structural)]
pub struct Registration {
    pub worker: usize,
    pub id: u64,
}

/// What is known of panics on the two threads of a worker.
pub struct PanicReport {
    pub foreground: Option<WorkerPanicInfo>,
    pub background: Option<WorkerPanicInfo>,
}

/// What the founder of a circuit has to do while it is being built.
pub enum Settled<T, E> {
    /// The circuit is there.
    Ready(T),
    /// Building it failed.
    Failed(Error<E>),
    /// Wait on.
    Again,
    /// The worker is gone: fail with [`RuntimePool::lost`].
    Lost,
}

/// A pool of workers, as its holders share it.
pub struct RuntimePool {
    config: PoolConfig,
    running: bool,
    senders: Vec<Sender<Message>>,
    loads: Vec<usize>,
    next_id: u64,
    counters: Counters,
}

/// A [`RuntimePool`] as contracts see it.
#[verifier::ext_equal]
pub struct PoolView {
    pub config: PoolConfigView,
    /// The threads have not been told to stop.
    pub running: bool,
    /// What was sent to each worker, oldest first.
    pub mail: Seq<Seq<Post>>,
    /// How many circuits each worker has.
    pub loads: Seq<usize>,
    /// The number of the next circuit.
    pub next_id: u64,
    pub counters: Counters,
}

impl View for RuntimePool {
    type V = PoolView;

    closed spec fn view(&self) -> PoolView {
        PoolView {
            config: self.config@,
            running: self.running,
            mail: mail(self.senders@),
            loads: self.loads@,
            next_id: self.next_id,
            counters: self.counters,
        }
    }
}

spec fn mail(senders: Seq<Sender<Message>>) -> Seq<Seq<Post>> {
    senders.map_values(|sender: Sender<Message>| posted(sender))
}

/// The sum of the loads.
pub open spec fn total(loads: Seq<usize>) -> nat
    decreases loads.len(),
{
    if loads.len() == 0 {
        0
    } else {
        total(loads.drop_last()) + loads.last() as nat
    }
}

/// No worker has fewer circuits than `worker`, and of those that have as few it is the first.
pub open spec fn least_loaded(loads: Seq<usize>, worker: int) -> bool {
    &&& 0 <= worker < loads.len()
    &&& forall|other: int| 0 <= other < loads.len() ==> loads[worker] <= #[trigger] loads[other]
    &&& forall|other: int| 0 <= other < worker ==> loads[worker] < #[trigger] loads[other]
}

/// The panics of one worker, those of its foreground thread first.
pub open spec fn panics_of(worker: usize, report: PanicReport) -> Seq<
    (usize, ThreadType, WorkerPanicInfo),
> {
    (match report.foreground {
        Some(info) => seq![(worker, ThreadType::Foreground, info)],
        None => Seq::empty(),
    }) + (match report.background {
        Some(info) => seq![(worker, ThreadType::Background, info)],
        None => Seq::empty(),
    })
}

/// The panics of all workers, in the order of the workers.
pub open spec fn panics(reports: Seq<PanicReport>) -> Seq<(usize, ThreadType, WorkerPanicInfo)>
    decreases reports.len(),
{
    if reports.len() == 0 {
        Seq::empty()
    } else {
        panics(reports.drop_last()) + panics_of((reports.len() - 1) as usize, reports.last())
    }
}

impl PoolView {
    /// Every worker has a load and a mailbox.
    pub open spec fn wf(self) -> bool {
        &&& self.config.startable()
        &&& self.mail.len() == self.config.threads
        &&& self.loads.len() == self.config.threads
    }

    /// The pool after one of its workers was sent a message, and has taken it or not.
    pub open spec fn posting(self, worker: int, message: Message, taken: bool) -> Self {
        PoolView {
            mail: self.mail.update(worker, self.mail[worker].push(Post { message, taken })),
            ..self
        }
    }

    /// The worker has taken what it was sent last.
    pub open spec fn reached(self, worker: int) -> bool {
        self.mail[worker].last().taken
    }

    /// The pool after a worker got a circuit.
    pub open spec fn placing(self, worker: int) -> Self {
        PoolView {
            loads: self.loads.update(worker, self.loads[worker].wrapping_add(1)),
            ..self
        }
    }

    /// The pool after a worker lost a circuit.
    pub open spec fn releasing(self, worker: int) -> Self {
        PoolView {
            loads: self.loads.update(worker, self.loads[worker].wrapping_sub(1)),
            ..self
        }
    }

    /// The pool after a circuit was numbered.
    pub open spec fn numbering(self) -> Self {
        PoolView { next_id: self.next_id.wrapping_add(1), ..self }
    }

    /// The pool after what a worker has counted was counted.
    pub open spec fn counting(self, counters: Counters) -> Self {
        PoolView { counters: self.counters.merging(counters), ..self }
    }

    /// The pool after someone has undertaken to stop it.
    pub open spec fn stopped(self) -> Self {
        PoolView { running: false, ..self }
    }

    /// How one who stops the pool is to wait for its threads, if nobody has stopped it before.
    pub open spec fn joining(self, on_pool_thread: bool, in_executor: bool) -> Option<Join> {
        if !self.running {
            None
        } else if on_pool_thread {
            Some(Join::Detached)
        } else if in_executor {
            Some(Join::Helper)
        } else {
            Some(Join::Here)
        }
    }

    /// The pool is the one that was `before`, after all its workers were told to stop.
    pub open spec fn notified(self, before: Self) -> bool {
        &&& self == (PoolView { mail: self.mail, ..before })
        &&& self.mail.len() == before.mail.len()
        &&& forall|worker: int|
            0 <= worker < before.mail.len() ==> #[trigger] self.mail[worker]
                == before.mail[worker].push(
                Post { message: Message::Shutdown, taken: self.reached(worker) },
            )
    }
}

impl RuntimePool {
    /// The pool is as its constructor leaves it, up to what its methods do.
    pub open spec fn wf(&self) -> bool {
        self@.wf() && self.unlimited()
    }

    /// No mailbox has a limit.
    pub closed spec fn unlimited(&self) -> bool {
        forall|worker: int|
            0 <= worker < self.senders@.len() ==> never_full(#[trigger] self.senders@[worker])
    }

    /// What is sent to `worker` comes out of `mailbox`.
    pub closed spec fn feeds(&self, worker: int, mailbox: Receiver<Message>) -> bool {
        paired(self.senders@[worker], mailbox)
    }

    /// What is sent to a worker goes into the mailbox that it is fed with, which has no limit: the
    /// other end of that mailbox was handed just what the worker was sent.
    pub proof fn law_mail_goes_into_its_mailbox(&self, worker: int, mailbox: Receiver<Message>)
        requires
            self.wf(),
            0 <= worker < self@.mail.len(),
            self.feeds(worker, mailbox),
        ensures
            exists|sender: Sender<Message>|
                {
                    &&& #[trigger] paired(sender, mailbox)
                    &&& posted(sender) == self@.mail[worker]
                    &&& never_full(sender)
                },
    {
        assert(paired(self.senders@[worker], mailbox));
    }

    /// The mailboxes are still those of `before`.
    pub open spec fn same_mailboxes(&self, before: &Self) -> bool {
        forall|worker: int, mailbox: Receiver<Message>|
            0 <= worker < before@.mail.len() ==> (#[trigger] self.feeds(worker, mailbox)
                == before.feeds(worker, mailbox))
    }

    /// Set up a pool, to be brought to life with what is returned beside it.
    pub fn start<E>(config: PoolConfig) -> (started: Result<(Self, Launch), Error<E>>)
        ensures
            started is Ok <==> config@.startable(),
            started matches Err(error) ==> is_invalid(
                error,
                "foreground/merger thread counts must be positive and merger threads must fit u16"@,
            ),
            started matches Ok((pool, launch)) ==> {
                &&& pool.wf()
                &&& pool@ == (PoolView {
                    config: config@,
                    running: true,
                    mail: Seq::new(config@.threads as nat, |worker: int| Seq::<Post>::empty()),
                    loads: Seq::new(config@.threads as nat, |worker: int| 0usize),
                    next_id: 0,
                    counters: Counters { steps: 0, queue_nanos: 0, execution_nanos: 0 },
                })
                &&& launch.circuit.hosts(config@)
                &&& launch.cache_mib == config@.cache_mib
                &&& launch.mailboxes@.len() == config@.threads
                &&& forall|worker: int|
                    #![trigger launch.mailboxes@[worker]]
                    0 <= worker < config@.threads ==> {
                        &&& pool.feeds(worker, launch.mailboxes@[worker])
                        &&& looks(launch.mailboxes@[worker]) == Seq::<Look>::empty()
                    }
            },
    {
        let threads = config.threads();
        let merger_threads = config.merger_threads();
        if threads == 0 || merger_threads == 0 || merger_threads > u16::MAX as usize {
            return Err(
                invalid(
                    "foreground/merger thread counts must be positive and merger threads must fit u16",
                ),
            );
        }
        let mut senders: Vec<Sender<Message>> = Vec::new();
        let mut mailboxes: Vec<Receiver<Message>> = Vec::new();
        let mut loads: Vec<usize> = Vec::new();
        for worker in 0..threads
            invariant
                senders@.len() == worker,
                mailboxes@.len() == worker,
                loads@ == Seq::new(worker as nat, |worker: int| 0usize),
                forall|i: int|
                    #![trigger senders@[i]]
                    #![trigger mailboxes@[i]]
                    0 <= i < worker ==> {
                        &&& posted(senders@[i]) == Seq::<Post>::empty()
                        &&& never_full(senders@[i])
                        &&& paired(senders@[i], mailboxes@[i])
                        &&& looks(mailboxes@[i]) == Seq::<Look>::empty()
                    },
        {
            let (sender, mailbox) = unbounded();
            senders.push(sender);
            mailboxes.push(mailbox);
            loads.push(0);
        }
        let launch = Launch {
            circuit: config.circuit(),
            cache_mib: config.cache_mib(),
            mailboxes,
        };
        let pool = RuntimePool {
            config,
            running: true,
            senders,
            loads,
            next_id: 0,
            counters: Counters::zero(),
        };
        Ok((pool, launch))
    }

    /// How many circuits are registered, if that can be expressed.
    pub fn registered(&self) -> (registered: Option<usize>)
        requires
            self.wf(),
        ensures
            registered == (if total(self@.loads) <= usize::MAX {
                Some(total(self@.loads) as usize)
            } else {
                None::<usize>
            }),
    {
        let mut sum: usize = 0;
        for worker in 0..self.loads.len()
            invariant
                sum == total(self.loads@.take(worker as int)),
        {
            proof {
                lemma_total_step(self.loads@, worker as int);
                lemma_total_prefix(self.loads@, worker + 1);
            }
            match sum.checked_add(self.loads[worker]) {
                Some(more) => sum = more,
                None => return None,
            }
        }
        assert(self.loads@.take(self.loads@.len() as int) =~= self.loads@);
        Some(sum)
    }

    /// Read aggregate scheduling counters.
    pub fn stats(&self) -> (stats: PoolStats)
        requires
            self.wf(),
            total(self@.loads) <= usize::MAX,
        ensures
            stats.registered_circuits == total(self@.loads),
            stats.foreground_threads == self@.config.threads,
            stats.merger_threads == self@.config.merger_threads,
            stats.completed_steps == self@.counters.steps,
            nanos_of(stats.queue_time) == self@.counters.queue_nanos,
            nanos_of(stats.execution_time) == self@.counters.execution_nanos,
    {
        PoolStats {
            registered_circuits: self.registered().unwrap(),
            foreground_threads: self.config.threads(),
            merger_threads: self.config.merger_threads(),
            completed_steps: self.counters.steps,
            queue_time: Duration::from_nanos(self.counters.queue_nanos),
            execution_time: Duration::from_nanos(self.counters.execution_nanos),
        }
    }

    /// Count what a worker has counted.
    pub fn count(&mut self, counters: Counters)
        ensures
            final(self)@ == old(self)@.counting(counters),
            old(self).wf() ==> final(self).wf(),
            final(self).same_mailboxes(old(self)),
    {
        self.counters.merge(counters);
    }

    /// Register a circuit: check that it can join, and find it a worker.
    ///
    /// `on_pool_thread` says whether the caller is a thread of this pool, and `stopped` whether
    /// the pool has been stopped.
    pub fn init<E>(
        &mut self,
        config: &CircuitConfig,
        on_pool_thread: bool,
        stopped: bool,
    ) -> (lease: Result<LoadLease, Error<E>>)
        requires
            old(self).wf(),
        ensures
            final(self).wf(),
            final(self).same_mailboxes(old(self)),
            lease is Ok <==> config.poolable() && !on_pool_thread && !stopped,
            lease matches Ok(lease) ==> {
                &&& least_loaded(old(self)@.loads, lease.worker as int)
                &&& final(self)@ == old(self)@.placing(lease.worker as int)
            },
            lease matches Err(error) ==> {
                &&& final(self)@ == old(self)@
                &&& if !config.poolable() {
                    rejects(*config, error)
                } else if on_pool_thread {
                    is_unsupported(error, "registering a circuit from a worker of the same pool"@)
                } else {
                    is_terminated(error)
                }
            },
    {
        match validate(config) {
            Ok(_) => {},
            Err(error) => return Err(error),
        }
        if on_pool_thread {
            return Err(unsupported("registering a circuit from a worker of the same pool"));
        }
        if stopped {
            return Err(terminated());
        }
        let worker = self.least();
        let load = self.loads[worker];
        self.loads.set(worker, load.wrapping_add(1));
        Ok(LoadLease { worker })
    }

    fn least(&self) -> (worker: usize)
        requires
            self.wf(),
        ensures
            least_loaded(self@.loads, worker as int),
    {
        let mut least: usize = 0;
        for worker in 1..self.loads.len()
            invariant
                least < worker <= self.loads@.len(),
                least_loaded(self.loads@.take(worker as int), least as int),
        {
            assert(self.loads@.take(worker + 1).drop_last() =~= self.loads@.take(worker as int));
            if self.loads[worker] < self.loads[least] {
                least = worker;
            }
        }
        assert(self.loads@.take(self.loads@.len() as int) =~= self.loads@);
        least
    }

    /// Give back a circuit's share of its worker.
    pub fn release(&mut self, lease: LoadLease)
        requires
            old(self).wf(),
            lease.worker < old(self)@.loads.len(),
        ensures
            final(self).wf(),
            final(self).same_mailboxes(old(self)),
            final(self)@ == old(self)@.releasing(lease.worker as int),
    {
        let load = self.loads[lease.worker];
        self.loads.set(lease.worker, load.wrapping_sub(1));
    }

    /// Number a circuit that was placed.
    pub fn register(&mut self, lease: &LoadLease) -> (registration: Registration)
        requires
            old(self).wf(),
        ensures
            final(self).wf(),
            final(self).same_mailboxes(old(self)),
            registration == (Registration { worker: lease.worker, id: old(self)@.next_id }),
            final(self)@ == old(self)@.numbering(),
    {
        let id = self.next_id;
        self.next_id = id.wrapping_add(1);
        Registration { worker: lease.worker, id }
    }

    /// Have a circuit built by its worker, as [`Registration::found`] says.
    pub fn create<E>(&mut self, registration: Registration) -> (created: Result<
        Registration,
        Error<E>,
    >)
        requires
            old(self).wf(),
            registration.within(old(self)@),
        ensures
            final(self).wf(),
            final(self).same_mailboxes(old(self)),
            final(self)@ == old(self)@.posting(
                registration.worker as int,
                Message::Create(registration.id),
                final(self)@.reached(registration.worker as int),
            ),
            created is Ok <==> final(self)@.reached(registration.worker as int),
            match created {
                Ok(created) => created == registration,
                Err(error) => is_terminated(error),
            },
    {
        let taken = self.post(registration.worker, Message::Create(registration.id));
        registration.found(taken)
    }

    fn post(&mut self, worker: usize, message: Message) -> (taken: bool)
        requires
            old(self).wf(),
            worker < old(self)@.mail.len(),
        ensures
            final(self).wf(),
            final(self).same_mailboxes(old(self)),
            final(self)@ == old(self)@.posting(worker as int, message, taken),
            final(self)@.reached(worker as int) == taken,
    {
        send(&mut self.senders[worker], message)
    }

    /// All panics that are known of, by worker, and foreground before background.
    pub fn panic_info(&self, reports: Vec<PanicReport>) -> (info: Vec<
        (usize, ThreadType, WorkerPanicInfo),
    >)
        ensures
            info@ == panics(reports@),
    {
        let ghost all = reports@;
        let n_workers = reports.len();
        let mut rest: VecDeque<PanicReport> = queue(reports);
        let mut info: Vec<(usize, ThreadType, WorkerPanicInfo)> = Vec::new();
        for worker in 0..n_workers
            invariant
                all.len() == n_workers,
                rest@ == all.skip(worker as int),
                info@ == panics(all.take(worker as int)),
        {
            assert(all.take(worker + 1).drop_last() =~= all.take(worker as int));
            let report = rest.pop_front().unwrap();
            if let Some(foreground) = report.foreground {
                info.push((worker, ThreadType::Foreground, foreground));
            }
            if let Some(background) = report.background {
                info.push((worker, ThreadType::Background, background));
            }
        }
        assert(all.take(n_workers as int) =~= all);
        info
    }

    /// Whether a thread of the pool has panicked.
    pub fn panicked(&self, reports: &Vec<PanicReport>) -> (panicked: bool)
        ensures
            panicked == (panics(reports@).len() > 0),
    {
        for worker in 0..reports.len()
            invariant
                panics(reports@.take(worker as int)).len() == 0,
        {
            let ghost next = reports@.take(worker + 1);
            assert(next.drop_last() =~= reports@.take(worker as int));
            if reports[worker].foreground.is_some() || reports[worker].background.is_some() {
                proof {
                    lemma_panics_prefix(reports@, worker + 1);
                }
                return true;
            }
        }
        assert(reports@.take(reports@.len() as int) =~= reports@);
        false
    }

    /// Why a circuit was not built although nothing was said about it.
    pub fn lost<E>(&self, reports: Vec<PanicReport>) -> (error: Error<E>)
        ensures
            if panics(reports@).len() > 0 {
                error matches Error::Runtime(RuntimeError::WorkerPanic { panic_info })
                    && panic_info@ == panics(reports@)
            } else {
                is_terminated(error)
            },
    {
        if self.panicked(&reports) {
            Error::Runtime(RuntimeError::WorkerPanic { panic_info: self.panic_info(reports) })
        } else {
            terminated()
        }
    }

    /// Stop the pool: the first caller does, and the others find it done.
    ///
    /// The first caller stops the runtime, then calls [`RuntimePool::notify_shutdown`], then waits
    /// for the threads as it is told here. A thread of the pool cannot wait for itself, and is
    /// refused. `in_executor` says whether the caller runs an asynchronous executor.
    pub fn shutdown(&mut self, on_pool_thread: bool, in_executor: bool) -> (join: Result<
        Option<Join>,
        &'static str,
    >)
        ensures
            join is Ok <==> !on_pool_thread,
            join matches Err(reason) ==> reason@
                == "cannot synchronously shut down a pool from its own worker"@ && final(self)@
                == old(self)@,
            join matches Ok(join) ==> {
                &&& join == old(self)@.joining(false, in_executor)
                &&& final(self)@ == old(self)@.stopped()
            },
            old(self).wf() ==> final(self).wf(),
            final(self).same_mailboxes(old(self)),
    {
        if on_pool_thread {
            return Err("cannot synchronously shut down a pool from its own worker");
        }
        if !self.running {
            return Ok(None);
        }
        self.running = false;
        if in_executor {
            Ok(Some(Join::Helper))
        } else {
            Ok(Some(Join::Here))
        }
    }

    /// Stop a pool that its last holder has let go of. A thread of the pool leaves the waiting to
    /// another one.
    pub fn let_go(&mut self, on_pool_thread: bool, in_executor: bool) -> (join: Option<Join>)
        ensures
            join == old(self)@.joining(on_pool_thread, in_executor),
            final(self)@ == old(self)@.stopped(),
            old(self).wf() ==> final(self).wf(),
            final(self).same_mailboxes(old(self)),
    {
        if on_pool_thread {
            if self.running {
                self.running = false;
                Some(Join::Detached)
            } else {
                None
            }
        } else {
            match self.shutdown(false, in_executor) {
                Ok(join) => join,
                Err(_) => None,
            }
        }
    }

    /// Tell every worker to stop.
    pub fn notify_shutdown(&mut self)
        requires
            old(self).wf(),
        ensures
            final(self).wf(),
            final(self).same_mailboxes(old(self)),
            final(self)@.notified(old(self)@),
    {
        let n_workers = self.senders.len();
        for worker in 0..n_workers
            invariant
                self.wf(),
                self.same_mailboxes(old(self)),
                n_workers == old(self)@.mail.len() == self@.mail.len(),
                self@ == (PoolView { mail: self@.mail, ..old(self)@ }),
                forall|i: int|
                    0 <= i < worker ==> #[trigger] self@.mail[i] == old(self)@.mail[i].push(
                        Post { message: Message::Shutdown, taken: self@.reached(i) },
                    ),
                forall|i: int|
                    worker <= i < self@.mail.len() ==> #[trigger] self@.mail[i]
                        == old(self)@.mail[i],
        {
            self.post(worker, Message::Shutdown);
        }
    }
}

impl Registration {
    /// The worker is one of the pool's.
    pub open spec fn within(self, pool: PoolView) -> bool {
        self.worker < pool.mail.len()
    }

    /// What becomes of a circuit that its worker was told to build. `taken` says whether the
    /// worker was there to be told: if it is gone, so is the pool.
    pub fn found<E>(self, taken: bool) -> (registration: Result<Registration, Error<E>>)
        ensures
            registration is Ok <==> taken,
            match registration {
                Ok(registration) => registration == self,
                Err(error) => is_terminated(error),
            },
    {
        if taken {
            Ok(self)
        } else {
            Err(terminated())
        }
    }

    /// Whether to wait until the removal of a circuit is acknowledged: not where its worker was
    /// not there to be told, and not on a thread of the pool.
    pub fn awaits_removal(taken: bool, on_pool_thread: bool) -> (wait: bool)
        ensures
            wait == (taken && !on_pool_thread),
    {
        taken && !on_pool_thread
    }

    /// Tell the worker that the circuit has a command waiting.
    pub fn wake(&self, pool: &mut RuntimePool)
        requires
            old(pool).wf(),
            self.within(old(pool)@),
        ensures
            final(pool).wf(),
            final(pool).same_mailboxes(old(pool)),
            final(pool)@ == old(pool)@.posting(
                self.worker as int,
                Message::Wake(self.id),
                final(pool)@.reached(self.worker as int),
            ),
    {
        pool.post(self.worker, Message::Wake(self.id));
    }

    /// Have the circuit dropped. The result says whether to wait until that is acknowledged, as
    /// [`Registration::awaits_removal`] does.
    pub fn remove(&self, pool: &mut RuntimePool, ack: Sender<()>, on_pool_thread: bool) -> (wait:
        bool)
        requires
            old(pool).wf(),
            self.within(old(pool)@),
        ensures
            final(pool).wf(),
            final(pool).same_mailboxes(old(pool)),
            final(pool)@ == old(pool)@.posting(
                self.worker as int,
                Message::Remove(self.id, ack),
                final(pool)@.reached(self.worker as int),
            ),
            wait == (final(pool)@.reached(self.worker as int) && !on_pool_thread),
    {
        let taken = pool.post(self.worker, Message::Remove(self.id, ack));
        Registration::awaits_removal(taken, on_pool_thread)
    }
}

/// What waiting for a circuit comes to.
pub open spec fn settling<T, E>(
    received: Received<Result<T, Error<E>>>,
    stopped: bool,
) -> Settled<T, E> {
    match received {
        Received::Message(Ok(circuit)) => Settled::Ready(circuit),
        Received::Message(Err(error)) => Settled::Failed(error),
        Received::TimedOut => if stopped {
            Settled::Lost
        } else {
            Settled::Again
        },
        Received::Disconnected => Settled::Lost,
    }
}

/// What has to be done after waiting for a circuit. `stopped` says whether the pool has been
/// stopped; it matters only where nothing came in time.
pub fn settle<T, E>(
    received: Received<Result<T, Error<E>>>,
    stopped: bool,
) -> (settled: Settled<T, E>)
    ensures
        settled == settling(received, stopped),
{
    match received {
        Received::Message(Ok(circuit)) => Settled::Ready(circuit),
        Received::Message(Err(error)) => Settled::Failed(error),
        Received::TimedOut => if stopped {
            Settled::Lost
        } else {
            Settled::Again
        },
        Received::Disconnected => Settled::Lost,
    }
}

/// Wait for a circuit to be built, once and not for long. `stopped` is asked whether the pool has
/// been stopped, if nothing came in time.
pub fn await_init<T, E, F: FnOnce() -> bool>(
    result: &mut Pending<T, E>,
    stopped: F,
) -> (settled: Settled<T, E>)
    requires
        stopped.requires(()),
    ensures
        exists|received: Received<Result<T, Error<E>>>, down: bool|
            {
                &&& final(result).waits() == old(result).waits().push((INIT_MILLIS, received))
                &&& settled == #[trigger] settling(received, down)
                &&& received is TimedOut ==> stopped.ensures((), down)
            },
{
    let received = result.wait(INIT_MILLIS);
    let down = match received {
        Received::TimedOut => stopped(),
        _ => false,
    };
    settle(received, down)
}

proof fn lemma_total_step(loads: Seq<usize>, n: int)
    requires
        0 <= n < loads.len(),
    ensures
        total(loads.take(n + 1)) == total(loads.take(n)) + loads[n],
{
    assert(loads.take(n + 1).drop_last() =~= loads.take(n));
}

proof fn lemma_total_prefix(loads: Seq<usize>, n: int)
    requires
        0 <= n <= loads.len(),
    ensures
        total(loads.take(n)) <= total(loads),
    decreases loads.len() - n,
{
    if n == loads.len() {
        assert(loads.take(n) =~= loads);
    } else {
        lemma_total_step(loads, n);
        lemma_total_prefix(loads, n + 1);
    }
}

proof fn lemma_panics_prefix(reports: Seq<PanicReport>, n: int)
    requires
        0 <= n <= reports.len(),
    ensures
        panics(reports.take(n)).len() <= panics(reports).len(),
    decreases reports.len() - n,
{
    if n == reports.len() {
        assert(reports.take(n) =~= reports);
    } else {
        assert(reports.take(n + 1).drop_last() =~= reports.take(n));
        lemma_panics_prefix(reports, n + 1);
    }
}

} // verus!

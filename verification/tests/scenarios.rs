//! Pools of toy circuits, run from end to end. All threads of a pool are played by the test, one
//! action at a time.

use crossbeam::channel::{bounded, Receiver, Sender};
use runtime_pool::channel::Pending;
use runtime_pool::config::{CircuitStorageConfig, StorageOptions};
use runtime_pool::error::{constructed, terminated, unsupported};
use runtime_pool::pool::{await_init, Join, PanicReport, Settled};
use runtime_pool::{
    Action, Call, CircuitConfig, Command, ConstructorError, Counters, Entry, Event, LoadLease,
    PoolConfig, PoolStats, Registration, Reply, Response, RuntimeError, RuntimePool,
    SchedulerError, ThreadType, WorkerLoop, WorkerPanicInfo,
};
use std::cell::{Cell, RefCell};
use std::collections::{BTreeMap, BTreeSet, HashMap};
use std::rc::Rc;

type Error = runtime_pool::Error<String>;
type ZSet = BTreeMap<u64, i64>;
type Shared<T> = Rc<RefCell<T>>;
type Answer = Result<Response<u64, String>, Error>;
type Build = Box<dyn FnOnce() -> Option<Entry<Host, u64, String>>>;

fn shared<T>(value: T) -> Shared<T> {
    Rc::new(RefCell::new(value))
}

/// The distinct elements of its input, as changes from transaction to transaction.
struct Toy {
    weights: ZSet,
    input: Shared<Vec<(u64, i64)>>,
    output: Shared<ZSet>,
    /// Steps that a transaction takes, and those that are left of the open one.
    steps: usize,
    left: usize,
    open: bool,
    compacting: bool,
    on_step: Option<Box<dyn FnMut()>>,
    panics: bool,
}

impl Toy {
    fn new() -> Toy {
        Toy {
            weights: ZSet::new(),
            input: shared(Vec::new()),
            output: shared(ZSet::new()),
            steps: 1,
            left: 0,
            open: false,
            compacting: false,
            on_step: None,
            panics: false,
        }
    }

    fn step(&mut self) -> Result<(), Error> {
        if !self.open {
            return Err(Error::Scheduler(SchedulerError::StepWithoutTransaction));
        }
        if let Some(on_step) = &mut self.on_step {
            on_step();
        }
        let mut delta = ZSet::new();
        for (key, weight) in self.input.borrow_mut().drain(..) {
            let before = *self.weights.get(&key).unwrap_or(&0);
            let after = before + weight;
            self.weights.insert(key, after);
            *delta.entry(key).or_insert(0) += (after > 0) as i64 - (before > 0) as i64;
        }
        delta.retain(|_, weight| *weight != 0);
        *self.output.borrow_mut() = delta;
        self.left = self.left.saturating_sub(1);
        self.open = self.left > 0;
        Ok(())
    }

    /// The reply to a call, unless the circuit panics.
    fn call(&mut self, call: Call) -> Option<Reply<u64, String>> {
        Some(match call {
            Call::StartTransaction => {
                self.open = true;
                self.left = self.steps;
                Reply::Done(Ok(()))
            }
            Call::Step => {
                if self.panics {
                    return None;
                }
                Reply::Done(self.step())
            }
            Call::IsCommitComplete => Reply::Flag(!self.open),
            Call::CommitProgress => Reply::Value(self.left as u64),
            Call::StartCompaction => {
                self.compacting = true;
                Reply::Done(Ok(()))
            }
            Call::IsCompactionComplete => Reply::Flag(self.compacting),
            Call::StartCommitTransaction => Reply::Done(Ok(())),
            _ => unreachable!(),
        })
    }
}

/// A circuit's share of its worker, given back with the circuit.
struct Share {
    pool: Pool,
    lease: Option<LoadLease>,
}

impl Drop for Share {
    fn drop(&mut self) {
        if let Some(lease) = self.lease.take() {
            self.pool.0.state.borrow_mut().release(lease);
        }
    }
}

struct Host {
    circuit: Toy,
    status: Sender<Answer>,
    stopped: Rc<Cell<bool>>,
    _share: Share,
}

struct Thread {
    worker: WorkerLoop<Host, u64, String>,
    /// What came of the last action; none was done yet where this is missing.
    event: Option<Event<Host, u64, String>>,
    entered: u128,
}

struct Inner {
    state: RefCell<RuntimePool>,
    threads: RefCell<Vec<Option<Thread>>>,
    builds: RefCell<HashMap<u64, (usize, Build)>>,
    panicked: RefCell<Vec<Option<String>>>,
    killed: Cell<bool>,
    /// The worker whose thread is being played.
    running: Cell<Option<usize>>,
    clock: Cell<u128>,
}

#[derive(Clone)]
struct Pool(Rc<Inner>);

fn pool(threads: usize) -> Pool {
    let config = PoolConfig::with_threads(threads).with_merger_threads(2).with_cache_mib(8);
    let (state, launch) = RuntimePool::start::<String>(config).unwrap();
    assert_eq!(launch.cache_mib, 8);
    assert_eq!(launch.circuit.dev_tweaks.merger_threads, Some(2));
    let threads = launch.mailboxes.into_iter().map(|mailbox| {
        Some(Thread { worker: WorkerLoop::new(mailbox), event: None, entered: 0 })
    });
    Pool(Rc::new(Inner {
        threads: RefCell::new(threads.collect()),
        panicked: RefCell::new(vec![None; state.stats().foreground_threads]),
        state: RefCell::new(state),
        builds: RefCell::new(HashMap::new()),
        killed: Cell::new(false),
        running: Cell::new(None),
        clock: Cell::new(0),
    }))
}

impl Pool {
    fn stats(&self) -> PoolStats {
        self.0.state.borrow().stats()
    }

    fn tick(&self) -> u128 {
        self.0.clock.set(self.0.clock.get() + 10);
        self.0.clock.get()
    }

    fn on_pool_thread(&self) -> bool {
        self.0.running.get().is_some()
    }

    fn reports(&self) -> Vec<PanicReport> {
        let panicked = self.0.panicked.borrow();
        let report = |message: &Option<String>| PanicReport {
            foreground: message.clone().map(|message| WorkerPanicInfo {
                message: Some(message),
                location: None,
            }),
            background: None,
        };
        panicked.iter().map(report).collect()
    }

    fn panic(&self, message: &str) {
        let worker = self.0.running.get().unwrap();
        self.0.panicked.borrow_mut()[worker] = Some(message.to_string());
        self.0.killed.set(true);
    }

    /// Why nothing came from a worker.
    fn lost(&self) -> Error {
        self.0.state.borrow().lost(self.reports())
    }

    /// Let a thread do one action. A thread that has ended does none.
    fn play(&self, worker: usize) {
        let Some(mut thread) = self.0.threads.borrow_mut()[worker].take() else {
            return;
        };
        self.0.running.set(Some(worker));
        let event = match thread.event.take() {
            Some(event) => event,
            None => Event::Killed(self.0.killed.get(), self.tick()),
        };
        let mut counters = Counters::zero();
        let action = thread.worker.advance(event, &mut counters);
        self.0.state.borrow_mut().count(counters);
        match self.perform(&mut thread, action) {
            Some(event) => {
                thread.event = Some(event);
                self.0.threads.borrow_mut()[worker] = Some(thread);
            }
            None => {
                self.0.builds.borrow_mut().retain(|_, (place, _)| *place != worker);
            }
        }
        self.0.running.set(None);
    }

    fn perform(
        &self,
        thread: &mut Thread,
        action: Action<Host, u64, String>,
    ) -> Option<Event<Host, u64, String>> {
        Some(match action {
            Action::AskKilled => Event::Killed(self.0.killed.get(), self.tick()),
            Action::Build(id) => {
                let (_, build) = self.0.builds.borrow_mut().remove(&id).unwrap();
                Event::Built(build())
            }
            Action::Inspect(id) => {
                let stopped = thread.worker.host_mut(id).unwrap().stopped.get();
                Event::Inspected(stopped, self.tick())
            }
            Action::Acknowledge(ack) => {
                let _ = ack.send(());
                Event::Done
            }
            Action::StopPool => {
                self.0.killed.set(true);
                Event::Done
            }
            Action::Pass => Event::Done,
            Action::Enter(_) => {
                thread.entered = self.tick();
                Event::Done
            }
            Action::Call(id, call) => {
                match thread.worker.host_mut(id).unwrap().circuit.call(call) {
                    Some(reply) => Event::Replied(reply),
                    None => {
                        self.panic("injected operator panic");
                        Event::Panicked
                    }
                }
            }
            Action::Leave(_) => {
                let now = self.tick();
                Event::Left(now - thread.entered, now)
            }
            Action::Answer(id, response) => {
                let _ = thread.worker.host_mut(id).unwrap().status.send(Ok(response));
                Event::Done
            }
            Action::Fail(error, entry) => {
                let _ = entry.host.status.send(Err(error));
                Event::Done
            }
            Action::Exit => return None,
        })
    }

    /// Let a thread run until something has come about, or it has ended.
    fn drive(&self, worker: usize, until: impl Fn() -> bool) {
        assert!(!self.on_pool_thread());
        let mut actions = 0;
        while !until() && self.0.threads.borrow()[worker].is_some() {
            self.play(worker);
            actions += 1;
            assert!(actions < 10_000);
        }
    }

    fn init(
        &self,
        config: &CircuitConfig,
        constructor: impl FnOnce() -> Option<Result<Toy, String>> + 'static,
    ) -> Result<Query, Error> {
        let lease = self.0.state.borrow_mut().init(
            config,
            self.on_pool_thread(),
            self.0.killed.get(),
        )?;
        let worker = lease.worker;
        let registration = self.0.state.borrow_mut().register(&lease);
        let id = registration.id;
        let share = Share { pool: self.clone(), lease: Some(lease) };
        let (commands, receiver) = bounded(1);
        let (status, responses) = bounded(1);
        let (initialized, receiving) = bounded(1);
        let came = receiving.clone();
        let mut result = Pending::new(receiving);
        let stopped = Rc::new(Cell::new(false));
        let flag = stopped.clone();
        let pool = self.clone();
        let build = Box::new(move || {
            let outcome = constructor();
            if outcome.is_none() {
                pool.panic("injected constructor panic");
            }
            match constructed(outcome) {
                Ok(circuit) => {
                    let ends = (circuit.input.clone(), circuit.output.clone());
                    let heard = initialized.send(Ok(ends)).is_ok();
                    let host = Host { circuit, status, stopped: flag, _share: share };
                    Entry::move_in(host, receiver, heard)
                }
                Err(error) => {
                    let _ = initialized.send(Err(error));
                    None
                }
            }
        });
        self.0.builds.borrow_mut().insert(id, (worker, build));
        let created = self.0.state.borrow_mut().create(registration);
        let registration = match created {
            Ok(registration) => registration,
            Err(error) => {
                self.0.builds.borrow_mut().remove(&id);
                return Err(error);
            }
        };
        loop {
            self.drive(worker, || !came.is_empty());
            match await_init(&mut result, || self.0.killed.get()) {
                Settled::Ready((input, output)) => {
                    return Ok(Query {
                        pool: self.clone(),
                        registration,
                        commands,
                        responses,
                        stopped,
                        input,
                        output,
                        pending: false,
                    });
                }
                Settled::Failed(error) => return Err(error),
                Settled::Again => {}
                Settled::Lost => return Err(self.lost()),
            }
        }
    }

    fn shutdown(&self) -> Result<Option<Join>, &'static str> {
        let join = self.0.state.borrow_mut().shutdown(self.on_pool_thread(), false)?;
        if join.is_some() {
            self.0.killed.set(true);
            self.0.state.borrow_mut().notify_shutdown();
            let n_workers = self.0.threads.borrow().len();
            for worker in 0..n_workers {
                self.drive(worker, || false);
            }
        }
        Ok(join)
    }
}

/// The holder's end of a circuit.
struct Query {
    pool: Pool,
    registration: Registration,
    commands: Sender<Command>,
    responses: Receiver<Answer>,
    stopped: Rc<Cell<bool>>,
    input: Shared<Vec<(u64, i64)>>,
    output: Shared<ZSet>,
    /// A transaction was submitted and not waited for.
    pending: bool,
}

impl Query {
    fn push(&self, key: u64, weight: i64) {
        self.input.borrow_mut().push((key, weight));
    }

    fn output(&self) -> ZSet {
        self.output.borrow().clone()
    }

    fn submit(&self, command: Command) -> Result<(), Error> {
        command.permit(self.pool.on_pool_thread())?;
        if self.pool.0.killed.get() {
            return Err(terminated());
        }
        if self.commands.send(command).is_err() {
            return Err(self.pool.lost());
        }
        self.registration.wake(&mut self.pool.0.state.borrow_mut());
        Ok(())
    }

    fn receive(&self) -> Answer {
        self.pool.drive(self.registration.worker, || !self.responses.is_empty());
        match self.responses.try_recv() {
            Ok(answer) => answer,
            Err(_) => Err(self.pool.lost()),
        }
    }

    fn drain(&mut self) -> Result<(), Error> {
        if self.pending {
            self.pending = false;
            self.receive()?;
        }
        Ok(())
    }

    fn request(&mut self, command: Command) -> Answer {
        self.drain()?;
        self.submit(command)?;
        self.receive()
    }

    /// Submit a transaction without waiting for it.
    fn begin(&mut self) -> Result<(), Error> {
        self.drain()?;
        self.submit(Command::Transaction)?;
        self.pending = true;
        Ok(())
    }

    fn transaction(&mut self) -> Result<(), Error> {
        self.begin()?;
        self.drain()
    }

    fn step(&mut self) -> Answer {
        self.request(Command::Step)
    }

    fn commit_progress(&mut self) -> Answer {
        self.request(Command::CommitProgress)
    }
}

impl Drop for Query {
    fn drop(&mut self) {
        self.stopped.set(true);
        let (ack, acknowledged) = bounded(1);
        let on_pool_thread = self.pool.on_pool_thread();
        let wait = {
            let mut state = self.pool.0.state.borrow_mut();
            self.registration.remove(&mut state, ack, on_pool_thread)
        };
        if wait {
            self.pool.drive(self.registration.worker, || !acknowledged.is_empty());
        }
    }
}

fn circuit(pool: &Pool) -> Query {
    pool.init(&CircuitConfig::with_workers(1), || Some(Ok(Toy::new()))).unwrap()
}

fn circuit_with(pool: &Pool, toy: impl FnOnce() -> Toy + 'static) -> Query {
    pool.init(&CircuitConfig::with_workers(1), move || Some(Ok(toy()))).unwrap()
}

fn zset(elements: &[(u64, i64)]) -> ZSet {
    elements.iter().copied().collect()
}

#[test]
fn pooled_and_dedicated_retractions_match() {
    let pool = pool(2);
    let mut queries = (0..8).map(|_| circuit(&pool)).collect::<Vec<_>>();
    let mut dedicated = Toy::new();
    for data in [vec![(1, 1), (2, 2)], vec![(2, -1)], vec![(1, -1), (2, -1)]] {
        dedicated.input.borrow_mut().extend(data.clone());
        for query in &mut queries {
            query.input.borrow_mut().extend(data.clone());
            query.begin().unwrap();
        }
        dedicated.call(Call::StartTransaction);
        dedicated.step().unwrap();
        for query in &mut queries {
            query.drain().unwrap();
        }
        let expected = dedicated.output.borrow().clone();
        for query in &queries {
            assert_eq!(query.output(), expected);
        }
    }
    assert_eq!(pool.stats().registered_circuits, 8);
    drop(queries);
    assert_eq!(pool.stats().registered_circuits, 0);
}

#[test]
fn circuits_stay_on_the_worker_they_were_given() {
    let pool = pool(2);
    let seen = shared(Vec::new());
    let mut handles = Vec::new();
    for id in 0..6u64 {
        let (seen, running) = (seen.clone(), pool.clone());
        let query = circuit_with(&pool, move || {
            let born = running.0.running.get();
            Toy {
                on_step: Some(Box::new(move || {
                    assert_eq!(running.0.running.get(), born);
                    seen.borrow_mut().push((id, born.unwrap()));
                })),
                ..Toy::new()
            }
        });
        assert_eq!(query.registration, Registration { worker: id as usize % 2, id });
        handles.push(query);
    }
    for _ in 0..3 {
        for handle in &mut handles {
            handle.transaction().unwrap();
        }
    }
    let seen = seen.borrow();
    assert!(seen.len() >= 18);
    let threads: BTreeSet<_> = seen.iter().map(|(_, thread)| *thread).collect();
    assert_eq!(threads.len(), 2);
}

#[test]
fn invalid_configuration_and_unsupported_operations_are_nonfatal() {
    let pool = pool(1);
    assert!(pool.init(&CircuitConfig::with_workers(2), || Some(Ok(Toy::new()))).is_err());
    assert!(pool
        .init(&CircuitConfig::with_workers(1).with_max_rss_bytes(Some(1024)), || {
            Some(Ok(Toy::new()))
        })
        .is_err());
    let mut query = circuit(&pool);
    let refused: Error = unsupported("checkpoint restore and bootstrap");
    for command in [Command::Bootstrap, Command::Checkpoint, Command::Restore] {
        let answer = query.request(command);
        assert!(matches!(answer, Err(error) if error == refused));
    }
    query.transaction().unwrap();
    assert_eq!(pool.stats().registered_circuits, 1);
}

#[test]
fn refused_commands_that_reach_a_circuit_end_it_alone() {
    let pool = pool(1);
    let bad = circuit(&pool);
    let mut good = circuit(&pool);
    bad.commands.send(Command::Checkpoint).unwrap();
    bad.registration.wake(&mut pool.0.state.borrow_mut());
    let refused: Error = unsupported("checkpoint restore and bootstrap");
    assert!(matches!(bad.receive(), Err(error) if error == refused));
    good.transaction().unwrap();
    assert_eq!(pool.stats().registered_circuits, 1);
}

#[test]
fn constructor_and_execution_errors_leave_peers_alive() {
    let pool = pool(1);
    let result = pool.init(&CircuitConfig::with_workers(1), || {
        Some(Err("constructor failed".to_string()))
    });
    assert!(matches!(
        result,
        Err(Error::Constructor(ConstructorError::Failed(reason))) if reason == "constructor failed"
    ));
    let mut bad = circuit(&pool);
    let mut good = circuit(&pool);
    // A step outside a transaction is a scheduler error.
    assert!(matches!(
        bad.step(),
        Err(Error::Scheduler(SchedulerError::StepWithoutTransaction))
    ));
    good.transaction().unwrap();
    assert_eq!(pool.stats().registered_circuits, 1);
}

#[test]
fn drop_one_circuit_and_shutdown_pool() {
    let pool = pool(1);
    let one = circuit(&pool);
    let mut two = circuit(&pool);
    drop(one);
    two.transaction().unwrap();
    assert_eq!(pool.shutdown(), Ok(Some(Join::Here)));
    assert!(two.transaction().is_err());
    let late = pool.init(&CircuitConfig::with_workers(1), || Some(Ok(Toy::new())));
    assert!(matches!(late, Err(Error::Runtime(RuntimeError::Terminated))));
    assert_eq!(pool.shutdown(), Ok(None));
    assert_eq!(pool.stats().registered_circuits, 0);
}

#[test]
fn dropped_async_future_is_drained_before_next_transaction() {
    let pool = pool(1);
    let mut query = circuit(&pool);
    query.push(1, 1);
    query.begin().unwrap();
    // The first transaction remains pending even if nobody waits for it.
    query.commit_progress().unwrap();
    assert_eq!(query.output(), zset(&[(1, 1)]));
    query.push(2, 1);
    query.transaction().unwrap();
    assert_eq!(query.output(), zset(&[(2, 1)]));
}

#[test]
fn foreground_panic_stops_pool_and_wakes_async_callers() {
    let pool = pool(1);
    let mut bad = circuit_with(&pool, || Toy { panics: true, ..Toy::new() });
    let mut good = circuit(&pool);
    bad.begin().unwrap();
    good.begin().unwrap();
    let panics = vec![(
        0,
        ThreadType::Foreground,
        WorkerPanicInfo { message: Some("injected operator panic".to_string()), location: None },
    )];
    let panicked = Error::Runtime(RuntimeError::WorkerPanic { panic_info: panics });
    assert_eq!(bad.drain(), Err(panicked.clone()));
    assert_eq!(good.drain(), Err(panicked));
    pool.shutdown().unwrap();
    assert_eq!(pool.stats().registered_circuits, 0);
}

#[test]
fn transactions_yield_between_steps_but_not_inside_a_step() {
    let pool = pool(1);
    let events = shared(Vec::new());
    let a_events = events.clone();
    let mut a = circuit_with(&pool, move || Toy {
        steps: 16,
        on_step: Some(Box::new(move || a_events.borrow_mut().push('A'))),
        ..Toy::new()
    });
    let b_events = events.clone();
    let mut b = circuit_with(&pool, move || Toy {
        on_step: Some(Box::new(move || b_events.borrow_mut().push('B'))),
        ..Toy::new()
    });
    a.begin().unwrap();
    pool.drive(0, || !events.borrow().is_empty());
    // The first step of A has been made, and its turn is not over.
    b.begin().unwrap();
    assert_eq!(*events.borrow(), vec!['A']);
    // Administrative commands first drain the transactions that nobody waited for.
    a.commit_progress().unwrap();
    b.commit_progress().unwrap();
    let events = events.borrow();
    let b_index = events.iter().position(|event| *event == 'B').unwrap();
    assert!(b_index > 0);
    assert!(events[b_index + 1..].contains(&'A'), "expected A to resume after B: {events:?}");
    assert_eq!(pool.stats().completed_steps, 17);
}

#[test]
fn distinct_pool_threads_run_concurrently() {
    let pool = pool(2);
    let inside = Rc::new(Cell::new(0));
    let mut handles = Vec::new();
    for _ in 0..2 {
        let inside = inside.clone();
        handles.push(circuit_with(&pool, move || Toy {
            on_step: Some(Box::new(move || inside.set(inside.get() + 1))),
            ..Toy::new()
        }));
    }
    for handle in &mut handles {
        handle.begin().unwrap();
    }
    // Neither step is over before both have begun.
    pool.drive(0, || inside.get() == 1);
    pool.drive(1, || inside.get() == 2);
    assert!(handles.iter().all(|handle| handle.responses.is_empty()));
    for handle in &mut handles {
        handle.drain().unwrap();
    }
}

#[test]
fn synchronous_transactions_can_run_inside_an_executor() {
    let pool = pool(1);
    let mut query = circuit(&pool);
    futures::executor::block_on(async {
        query.transaction().unwrap();
    });
}

#[test]
fn constructor_panic_and_repeated_registration_release_resources() {
    let pool = pool(1);
    for _ in 0..20 {
        let handle = circuit(&pool);
        drop(handle);
    }
    assert_eq!(pool.stats().registered_circuits, 0);
    let result = pool.init(&CircuitConfig::with_workers(1), || None);
    assert!(matches!(
        result,
        Err(Error::Constructor(ConstructorError::Panicked(reason)))
            if reason == "circuit constructor panicked; pool terminated"
    ));
    pool.shutdown().unwrap();
    assert_eq!(pool.stats().registered_circuits, 0);
}

#[test]
fn circuits_still_to_be_built_are_let_go_by_a_stopped_pool() {
    let pool = pool(1);
    let lease = {
        let mut state = pool.0.state.borrow_mut();
        state.init::<String>(&CircuitConfig::with_workers(1), false, false).unwrap()
    };
    let registration = pool.0.state.borrow_mut().register(&lease);
    let share = Share { pool: pool.clone(), lease: Some(lease) };
    let (initialized, result) = bounded::<Result<(), Error>>(1);
    let mut result = Pending::new(result);
    let build: Build = Box::new(move || {
        drop((share, initialized));
        unreachable!()
    });
    pool.0.builds.borrow_mut().insert(0, (0, build));
    pool.0.state.borrow_mut().create::<String>(registration).unwrap();
    assert_eq!(pool.stats().registered_circuits, 1);
    pool.shutdown().unwrap();
    assert!(matches!(await_init(&mut result, || true), Settled::Lost));
    assert_eq!(pool.lost(), terminated());
    assert_eq!(pool.stats().registered_circuits, 0);
}

#[test]
fn dropping_a_peer_from_a_pool_worker_defers_cleanup() {
    let pool = pool(1);
    let mut peer = circuit(&pool);
    peer.push(1, 1);
    peer.transaction().unwrap();
    let peer = shared(Some(peer));
    let mut owner = circuit_with(&pool, move || Toy {
        on_step: Some(Box::new(move || drop(peer.borrow_mut().take()))),
        ..Toy::new()
    });
    owner.transaction().unwrap();
    owner.commit_progress().unwrap();
    assert_eq!(pool.stats().registered_circuits, 1);
}

#[test]
fn pools_are_not_changed_by_their_own_workers() {
    let pool = pool(1);
    let seen = shared(Vec::new());
    let (inner, inside) = (seen.clone(), pool.clone());
    let mut query = circuit_with(&pool, move || Toy {
        on_step: Some(Box::new(move || {
            let joined = inside.init(&CircuitConfig::with_workers(1), || None);
            let submitted = Command::Transaction.permit::<String>(inside.on_pool_thread());
            inner.borrow_mut().push((joined.err(), submitted, inside.shutdown()));
        })),
        ..Toy::new()
    });
    query.transaction().unwrap();
    assert_eq!(
        *seen.borrow(),
        vec![(
            Some(unsupported("registering a circuit from a worker of the same pool")),
            Err(unsupported("submitting a command from a worker of the same pool")),
            Err("cannot synchronously shut down a pool from its own worker"),
        )]
    );
    query.transaction().unwrap();
    assert_eq!(pool.stats().registered_circuits, 1);
}

#[test]
fn spilling_circuits_compact_independently() {
    let pool = pool(2);
    let mut queries = (0..4)
        .map(|id| {
            let storage = CircuitStorageConfig {
                path: format!("circuit-{id}"),
                options: StorageOptions {
                    min_storage_bytes: Some(0),
                    min_step_storage_bytes: Some(0),
                    ..StorageOptions::default()
                },
                ..CircuitStorageConfig::default()
            };
            let config = CircuitConfig::with_workers(1).with_storage(Some(storage));
            pool.init(&config, || Some(Ok(Toy::new()))).unwrap()
        })
        .collect::<Vec<_>>();
    for round in 0..24 {
        for (id, query) in queries.iter_mut().enumerate() {
            query.push(id as u64 * 1000 + round, 1);
            query.begin().unwrap();
        }
        for (id, query) in queries.iter_mut().enumerate() {
            query.drain().unwrap();
            assert_eq!(query.output(), zset(&[(id as u64 * 1000 + round, 1)]));
        }
    }
    let complete = |query: &mut Query| match query.request(Command::IsCompactionComplete) {
        Ok(Response::IsCompactionComplete(complete)) => complete,
        _ => unreachable!(),
    };
    assert!(!complete(&mut queries[1]));
    assert!(matches!(queries[1].request(Command::StartCompaction), Ok(Response::Unit)));
    assert!(complete(&mut queries[1]));
    assert!(!complete(&mut queries[2]));
    drop(queries.remove(0));
    for query in &mut queries {
        query.transaction().unwrap();
    }
    drop(queries);
    assert_eq!(pool.stats().registered_circuits, 0);
    pool.shutdown().unwrap();
}

#[test]
fn every_command_gets_one_reply() {
    let pool = pool(1);
    let mut query = circuit_with(&pool, || Toy { steps: 3, ..Toy::new() });
    for _ in 0..5 {
        assert!(matches!(query.request(Command::Transaction), Ok(Response::Unit)));
        assert!(matches!(query.request(Command::CommitProgress), Ok(Response::CommitProgress(0))));
    }
    // Waking the circuit without a command brings no reply; its error is the last one.
    query.registration.wake(&mut pool.0.state.borrow_mut());
    assert!(query.step().is_err());
    assert!(query.responses.try_recv().is_err());
    assert!(query.commands.send(Command::Rebalance).is_err());
}

#[test]
fn waiting_and_running_are_timed() {
    let pool = pool(1);
    let mut query = circuit_with(&pool, || Toy { steps: 3, ..Toy::new() });
    query.transaction().unwrap();
    let stats = pool.stats();
    // One turn opens the transaction, and one takes each step. Every look at the clock is ten
    // nanoseconds after the last: a turn begins and ends with one, and between being put in line
    // and being taken out of it the clock is read twice, or once more for the first turn.
    assert_eq!(stats.completed_steps, 3);
    assert_eq!(stats.execution_time.as_nanos(), 40);
    assert_eq!(stats.queue_time.as_nanos(), 10 + 3 * 20);
}

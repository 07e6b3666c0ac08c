use crossbeam::channel::{bounded, Receiver};
use runtime_pool::channel::{Message, Pending, Received};
use runtime_pool::error::{invalid, terminated, unsupported};
use runtime_pool::pool::{await_init, settle, Join, PanicReport, Settled};
use runtime_pool::{
    CircuitConfig, Counters, LoadLease, PoolConfig, Registration, RuntimeError,
    RuntimePool, ThreadType, WorkerPanicInfo,
};
use std::time::Instant;

type Error = runtime_pool::Error<String>;

fn pool(threads: usize) -> (RuntimePool, Vec<Receiver<Message>>) {
    let (pool, launch) = RuntimePool::start::<String>(PoolConfig::with_threads(threads)).unwrap();
    (pool, launch.mailboxes)
}

fn place(pool: &mut RuntimePool) -> usize {
    pool.init::<String>(&CircuitConfig::with_workers(1), false, false).ok().unwrap().worker
}

fn info(message: &str) -> WorkerPanicInfo {
    WorkerPanicInfo { message: Some(message.to_string()), location: None }
}

fn quiet() -> PanicReport {
    PanicReport { foreground: None, background: None }
}

#[test]
fn new_pools_have_done_nothing() {
    let (pool, mailboxes) = pool(3);
    let stats = pool.stats();
    assert_eq!(stats.registered_circuits, 0);
    assert_eq!(stats.foreground_threads, 3);
    assert_eq!(stats.merger_threads, 3);
    assert_eq!(stats.completed_steps, 0);
    assert_eq!(stats.queue_time.as_nanos(), 0);
    assert_eq!(stats.execution_time.as_nanos(), 0);
    assert!(mailboxes.iter().all(|mailbox| mailbox.is_empty()));
}

#[test]
fn circuits_go_to_the_first_of_the_least_loaded_workers() {
    let (mut pool, _mailboxes) = pool(3);
    let places: Vec<usize> = (0..7).map(|_| place(&mut pool)).collect();
    assert_eq!(places, vec![0, 1, 2, 0, 1, 2, 0]);
    assert_eq!(pool.registered(), Some(7));
    pool.release(LoadLease { worker: 2 });
    assert_eq!(pool.registered(), Some(6));
    assert_eq!(place(&mut pool), 2);
    pool.release(LoadLease { worker: 1 });
    pool.release(LoadLease { worker: 1 });
    assert_eq!(place(&mut pool), 1);
    assert_eq!(place(&mut pool), 1);
    assert_eq!(place(&mut pool), 1);
    assert_eq!(pool.stats().registered_circuits, 8);
}

#[test]
fn releasing_gives_back_what_placing_took() {
    let (mut pool, _mailboxes) = pool(2);
    let first = place(&mut pool);
    let second = place(&mut pool);
    pool.release(LoadLease { worker: second });
    pool.release(LoadLease { worker: first });
    assert_eq!(pool.registered(), Some(0));
    assert_eq!(place(&mut pool), 0);
}

#[test]
fn new_pools_are_filled_in_turn() {
    for threads in 1..5 {
        let (mut pool, _mailboxes) = pool(threads);
        for k in 0..20 {
            assert_eq!(place(&mut pool), k % threads);
            assert_eq!(pool.registered(), Some(k + 1));
        }
    }
}

#[test]
fn released_leases_leave_no_trace() {
    let (mut with, _mailboxes) = pool(3);
    let (mut without, _mailboxes) = pool(3);
    for pool in [&mut with, &mut without] {
        place(pool);
    }
    let leaked = place(&mut with);
    assert_eq!(leaked, 1);
    // Another circuit comes, and goes where it would not have gone; then both leave.
    assert_eq!(place(&mut with), 2);
    with.release(LoadLease { worker: leaked });
    with.release(LoadLease { worker: 2 });
    assert_eq!(with.registered(), without.registered());
    for _ in 0..7 {
        assert_eq!(place(&mut with), place(&mut without));
    }
}

#[test]
fn statistics_never_fall() {
    let (mut pool, _mailboxes) = pool(2);
    let mut last = pool.stats();
    for round in 0..6u64 {
        pool.count(Counters { steps: round % 2, queue_nanos: round, execution_nanos: 3 });
        place(&mut pool);
        pool.create::<String>(Registration { worker: 1, id: round }).unwrap();
        if round == 3 {
            pool.shutdown(false, false).unwrap();
            pool.notify_shutdown();
        }
        let stats = pool.stats();
        assert!(stats.completed_steps >= last.completed_steps);
        assert!(stats.queue_time >= last.queue_time);
        assert!(stats.execution_time > last.execution_time);
        assert_eq!(stats.foreground_threads, 2);
        assert_eq!(stats.merger_threads, 2);
        last = stats;
    }
    assert_eq!(last.completed_steps, 3);
    assert_eq!(last.queue_time.as_nanos(), 15);
    assert_eq!(last.execution_time.as_nanos(), 18);
    assert_eq!(pool.stats().queue_time, last.queue_time);
}

#[test]
fn registrations_beyond_what_can_be_counted_are_not_counted() {
    let (mut pool, _mailboxes) = pool(2);
    // Nothing was placed, so the count of the first worker starts again from the top.
    pool.release(LoadLease { worker: 0 });
    assert_eq!(pool.registered(), Some(usize::MAX));
    assert_eq!(place(&mut pool), 1);
    assert_eq!(pool.registered(), None);
}

#[test]
fn refused_circuits_are_not_registered() {
    let (mut pool, _mailboxes) = pool(1);
    let good = CircuitConfig::with_workers(1);
    let bad = CircuitConfig::with_workers(2);
    let layout = invalid("pooled circuits require a single-host layout with exactly one worker");
    let own = unsupported("registering a circuit from a worker of the same pool");
    assert_eq!(pool.init::<String>(&bad, true, true).err(), Some(layout));
    assert_eq!(pool.init::<String>(&good, true, true).err(), Some(own));
    assert_eq!(pool.init::<String>(&good, false, true).err(), Some(terminated()));
    assert_eq!(pool.registered(), Some(0));
}

#[test]
fn circuits_are_numbered_in_order() {
    let (mut pool, _mailboxes) = pool(1);
    let lease = LoadLease { worker: 0 };
    let ids: Vec<u64> = (0..3).map(|_| pool.register(&lease).id).collect();
    assert_eq!(ids, vec![0, 1, 2]);
}

#[test]
fn messages_reach_one_worker_in_order() {
    let (mut pool, mailboxes) = pool(2);
    place(&mut pool);
    let lease = pool.init::<String>(&CircuitConfig::with_workers(1), false, false).ok().unwrap();
    pool.register(&lease);
    let registration = pool.register(&lease);
    assert_eq!(registration, Registration { worker: 1, id: 1 });
    assert_eq!(pool.create::<String>(registration), Ok(registration));
    registration.wake(&mut pool);
    let (ack, acknowledged) = bounded(1);
    assert!(registration.remove(&mut pool, ack, false));
    assert!(mailboxes[0].is_empty());
    assert!(matches!(mailboxes[1].try_recv(), Ok(Message::Create(1))));
    assert!(matches!(mailboxes[1].try_recv(), Ok(Message::Wake(1))));
    match mailboxes[1].try_recv() {
        Ok(Message::Remove(1, ack)) => ack.send(()).unwrap(),
        _ => unreachable!(),
    }
    assert!(acknowledged.try_recv().is_ok());
    assert!(mailboxes[1].is_empty());
}

#[test]
fn threads_of_the_pool_do_not_wait_for_a_removal() {
    let (mut pool, mailboxes) = pool(1);
    let registration = pool.create::<String>(Registration { worker: 0, id: 4 }).unwrap();
    let (ack, _acknowledged) = bounded(1);
    assert!(!registration.remove(&mut pool, ack, true));
    assert_eq!(mailboxes[0].len(), 2);
}

#[test]
fn workers_that_are_gone_are_not_waited_for() {
    let (mut pool, mailboxes) = pool(1);
    let registration = pool.create::<String>(Registration { worker: 0, id: 4 }).unwrap();
    drop(mailboxes);
    assert_eq!(pool.create(Registration { worker: 0, id: 5 }), Err::<_, Error>(terminated()));
    registration.wake(&mut pool);
    let (ack, _acknowledged) = bounded(1);
    assert!(!registration.remove(&mut pool, ack, false));
}

#[test]
fn what_a_worker_takes_decides() {
    let registration = Registration { worker: 2, id: 3 };
    assert_eq!(registration.found::<String>(true), Ok(registration));
    assert_eq!(registration.found::<String>(false), Err(terminated()));
    assert!(Registration::awaits_removal(true, false));
    assert!(!Registration::awaits_removal(true, true));
    assert!(!Registration::awaits_removal(false, false));
    assert!(!Registration::awaits_removal(false, true));
}

#[test]
fn stopping_twice_is_stopping_once() {
    let (mut pool, mailboxes) = pool(2);
    assert_eq!(pool.shutdown(false, false), Ok(Some(Join::Here)));
    pool.create::<String>(Registration { worker: 1, id: 0 }).unwrap();
    pool.notify_shutdown();
    assert_eq!(pool.shutdown(false, false), Ok(None));
    assert_eq!(pool.shutdown(false, true), Ok(None));
    assert_eq!(pool.let_go(false, false), None);
    assert_eq!(pool.let_go(true, false), None);
    assert!(matches!(mailboxes[0].try_recv(), Ok(Message::Shutdown)));
    assert!(matches!(mailboxes[1].try_recv(), Ok(Message::Create(0))));
    assert!(matches!(mailboxes[1].try_recv(), Ok(Message::Shutdown)));
}

#[test]
fn threads_do_not_wait_for_themselves() {
    let (mut first, _mailboxes) = pool(1);
    let refusal = "cannot synchronously shut down a pool from its own worker";
    assert_eq!(first.shutdown(true, false), Err(refusal));
    assert_eq!(first.shutdown(false, true), Ok(Some(Join::Helper)));
    assert_eq!(first.shutdown(true, false), Err(refusal));
    let (mut second, _mailboxes) = pool(1);
    assert_eq!(second.let_go(true, true), Some(Join::Detached));
    let (mut third, _mailboxes) = pool(1);
    assert_eq!(third.let_go(false, true), Some(Join::Helper));
    let (mut fourth, _mailboxes) = pool(1);
    assert_eq!(fourth.let_go(false, false), Some(Join::Here));
}

#[test]
fn panics_are_listed_by_worker_and_thread() {
    let (pool, _mailboxes) = pool(3);
    let reports = || {
        vec![
            PanicReport { foreground: None, background: Some(info("a")) },
            quiet(),
            PanicReport { foreground: Some(info("b")), background: Some(info("c")) },
        ]
    };
    let listed = vec![
        (0, ThreadType::Background, info("a")),
        (2, ThreadType::Foreground, info("b")),
        (2, ThreadType::Background, info("c")),
    ];
    assert!(pool.panicked(&reports()));
    assert_eq!(pool.panic_info(reports()), listed);
    assert_eq!(
        pool.lost(reports()),
        Error::Runtime(RuntimeError::WorkerPanic { panic_info: listed })
    );
}

#[test]
fn pools_without_panics_have_terminated() {
    let (pool, _mailboxes) = pool(2);
    assert!(!pool.panicked(&vec![quiet(), quiet()]));
    assert!(pool.panic_info(vec![quiet(), quiet()]).is_empty());
    assert_eq!(pool.lost::<String>(vec![quiet(), quiet()]), terminated());
}

#[test]
fn waiting_for_a_circuit_ends_as_it_should() {
    assert!(matches!(settle::<u8, String>(Received::Message(Ok(5)), true), Settled::Ready(5)));
    let failed = settle::<u8, String>(Received::Message(Err(terminated())), false);
    assert!(matches!(failed, Settled::Failed(error) if error == terminated()));
    assert!(matches!(settle::<u8, String>(Received::TimedOut, false), Settled::Again));
    assert!(matches!(settle::<u8, String>(Received::TimedOut, true), Settled::Lost));
    assert!(matches!(settle::<u8, String>(Received::Disconnected, false), Settled::Lost));
}

#[test]
fn circuits_are_waited_for_on_their_channel() {
    let (sender, receiver) = bounded::<Result<u8, Error>>(1);
    let mut receiver = Pending::new(receiver);
    let start = Instant::now();
    assert!(matches!(await_init(&mut receiver, || false), Settled::Again));
    assert!(start.elapsed().as_millis() >= 100);
    assert!(matches!(await_init(&mut receiver, || true), Settled::Lost));
    sender.send(Ok(7)).unwrap();
    assert!(matches!(await_init(&mut receiver, || true), Settled::Ready(7)));
    sender.send(Err(terminated())).unwrap();
    assert!(matches!(await_init(&mut receiver, || false), Settled::Failed(_)));
    drop(sender);
    assert!(matches!(await_init(&mut receiver, || false), Settled::Lost));
}

#[test]
fn counters_show_in_the_statistics() {
    let (mut pool, _mailboxes) = pool(1);
    let mut counters = Counters::zero();
    counters.count_step();
    counters.count_step();
    counters.count_queue(1_500_000_000);
    pool.count(counters);
    pool.count(Counters { steps: 0, queue_nanos: 0, execution_nanos: 7 });
    let stats = pool.stats();
    assert_eq!(stats.completed_steps, 2);
    assert_eq!(stats.queue_time.as_millis(), 1500);
    assert_eq!(stats.execution_time.as_nanos(), 7);
}

#[test]
fn counters_are_cumulative_and_start_again() {
    let mut counters = Counters::zero();
    counters.count_queue(3);
    counters.count_queue(4);
    assert_eq!(counters.queue_nanos, 7);
    counters.count_queue(1 << 64);
    assert_eq!(counters.queue_nanos, 7);
    counters.count_execution(u64::MAX as u128);
    counters.count_execution(2);
    assert_eq!(counters.execution_nanos, 1);
    counters.steps = u64::MAX;
    counters.count_step();
    assert_eq!(counters, Counters { steps: 0, queue_nanos: 7, execution_nanos: 1 });
}

#[test]
fn counts_can_be_merged() {
    let mut shared = Counters { steps: u64::MAX, queue_nanos: 10, execution_nanos: 20 };
    shared.merge(Counters { steps: 2, queue_nanos: 3, execution_nanos: 4 });
    assert_eq!(shared, Counters { steps: 1, queue_nanos: 13, execution_nanos: 24 });
}

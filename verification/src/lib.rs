//! Scheduling core of a pool that runs many independent circuits on a fixed set of threads.
//!
//! A circuit is a program that only its engine can run. It has one logical worker, and lives on one
//! thread of the pool, chosen when it is registered. This library decides everything else: which
//! circuits may join and where they are placed ([`pool`], [`config`]), in what order the circuits
//! of a thread run ([`worker`], [`worker_loop`]), how a command of a circuit's holder turns into
//! calls on its engine ([`entry`], [`command`]), and what is counted ([`counters`]).
//!
//! Threads, clocks and the engine itself are left to the caller, who is told what to do next and
//! tells what came of it. What holds of the whole is stated, and proved, in [`laws`].

pub mod channel;
pub mod command;
pub mod config;
pub mod counters;
pub mod entry;
pub mod error;
pub mod laws;
pub mod pool;
pub mod worker;
pub mod worker_loop;

pub use command::{Call, Command, Reply, Response};
pub use config::{CircuitConfig, PoolConfig};
pub use counters::{Counters, PoolStats};
pub use entry::Entry;
pub use error::{
    ConstructorError, Error, RuntimeError, SchedulerError, ThreadType, WorkerPanicInfo,
};
pub use pool::{LoadLease, Registration, RuntimePool};
pub use worker_loop::{Action, Event, WorkerLoop};

//! Errors of the pool, and the failures of its threads.

use vstd::prelude::*;

verus! {

/// Which of a worker's two threads is meant.
#[derive(Clone, Copy, Debug, PartialEq, Eq, Structural)]
pub enum ThreadType {
    /// The thread that steps circuits.
    Foreground,
    /// The thread that merges their batches.
    Background,
}

/// What is known of a panic on a pool thread.
#[derive(Clone, Debug, PartialEq, Eq)]
pub struct WorkerPanicInfo {
    pub message: Option<String>,
    pub location: Option<String>,
}

/// Failures of the runtime that hosts the circuits.
#[derive(Clone, Debug, PartialEq, Eq)]
pub enum RuntimeError {
    /// A configuration that a pool, or a circuit in a pool, cannot have.
    InvalidPoolConfig(String),
    /// An operation that pooled circuits do not offer.
    UnsupportedPoolOperation(String),
    /// The pool has stopped.
    Terminated,
    /// Threads of the pool panicked.
    WorkerPanic { panic_info: Vec<(usize, ThreadType, WorkerPanicInfo)> },
}

/// Failures reported by a circuit's scheduler.
#[derive(Clone, Copy, Debug, PartialEq, Eq, Structural)]
pub enum SchedulerError {
    /// A step was asked for while no transaction was open.
    StepWithoutTransaction,
}

/// Why a circuit could not be built. `E` stands for the errors of the circuit engine.
#[derive(Clone, Debug, PartialEq, Eq)]
pub enum ConstructorError<E> {
    /// The function that builds the circuit returned this error.
    Failed(E),
    /// It panicked, as the text says.
    Panicked(String),
}

/// Everything that can go wrong with a pooled circuit.
#[derive(Clone, Debug, PartialEq, Eq)]
pub enum Error<E> {
    Runtime(RuntimeError),
    Scheduler(SchedulerError),
    Constructor(ConstructorError<E>),
    /// Any other error of the circuit engine.
    Engine(E),
}

/// `error` rejects a configuration, for the reason `text`.
pub open spec fn is_invalid<E>(error: Error<E>, text: Seq<char>) -> bool {
    error matches Error::Runtime(RuntimeError::InvalidPoolConfig(message)) && message@ == text
}

/// `error` rejects an operation that pooled circuits do not offer, named by `text`.
pub open spec fn is_unsupported<E>(error: Error<E>, text: Seq<char>) -> bool {
    error matches Error::Runtime(RuntimeError::UnsupportedPoolOperation(message)) && message@
        == text
}

/// `error` says that the pool has stopped.
pub open spec fn is_terminated<E>(error: Error<E>) -> bool {
    error == Error::<E>::Runtime(RuntimeError::Terminated)
}

/// The error for a configuration that cannot be had.
pub fn invalid<E>(message: &str) -> (error: Error<E>)
    ensures
        is_invalid(error, message@),
{
    Error::Runtime(RuntimeError::InvalidPoolConfig(message.to_owned()))
}

/// The error for an operation that is not offered.
pub fn unsupported<E>(message: &str) -> (error: Error<E>)
    ensures
        is_unsupported(error, message@),
{
    Error::Runtime(RuntimeError::UnsupportedPoolOperation(message.to_owned()))
}

/// The error for a pool that has stopped.
pub fn terminated<E>() -> (error: Error<E>)
    ensures
        is_terminated(error),
{
    Error::Runtime(RuntimeError::Terminated)
}

/// What building a circuit comes to. `outcome` is what its constructor returned, if it did not
/// panic.
pub fn constructed<T, E>(outcome: Option<Result<T, E>>) -> (circuit: Result<T, Error<E>>)
    ensures
        match outcome {
            Some(Ok(built)) => circuit == Ok::<T, Error<E>>(built),
            Some(Err(error)) => circuit == Err::<T, Error<E>>(
                Error::Constructor(ConstructorError::Failed(error)),
            ),
            None => circuit matches Err(Error::Constructor(ConstructorError::Panicked(text)))
                && text@ == "circuit constructor panicked; pool terminated"@,
        },
{
    match outcome {
        Some(Ok(built)) => Ok(built),
        Some(Err(error)) => Err(Error::Constructor(ConstructorError::Failed(error))),
        None => Err(
            Error::Constructor(
                ConstructorError::Panicked(
                    "circuit constructor panicked; pool terminated".to_owned(),
                ),
            ),
        ),
    }
}

} // verus!

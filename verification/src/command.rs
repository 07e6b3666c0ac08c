//! What a circuit can be asked to do, and what it answers.
//!
//! Operators are named, and balancer hints written, in the text form of the circuit engine. `P`
//! stands for the values that only the engine understands, namely progress reports, profiles, plans
//! and balancer policies, and `E` for its errors. The pool carries all of these without looking
//! inside.

use crate::error::{is_unsupported, unsupported, Error};
use vstd::prelude::*;

verus! {

/// A command that the holder of a circuit sends to it.
pub enum Command {
    /// Run a whole transaction.
    Transaction,
    StartTransaction,
    CommitTransaction,
    /// Run one step of the open transaction.
    Step,
    CommitProgress,
    EnableProfiler,
    DumpProfile,
    RetrieveGraph,
    RetrieveProfile,
    GetLir,
    SetAutoRebalance(bool),
    SetBalancerHintsByGlobalId(Vec<(String, String)>),
    SetBalancerHints(Vec<(String, String)>),
    GetCurrentBalancerPolicies,
    GetCurrentBalancerPolicy(String),
    Rebalance,
    StartCompaction,
    IsCompactionComplete,
    Checkpoint,
    Restore,
    Bootstrap,
}

impl Command {
    /// Pooled circuits neither write checkpoints nor start from them.
    pub open spec fn offered(self) -> bool {
        !(self is Checkpoint || self is Restore || self is Bootstrap)
    }

    /// Whether the holder of a circuit may send it this command. A command that is not offered is
    /// turned down here, before it reaches the circuit, which it would end. A thread of the
    /// circuit's own pool is turned down too: it would wait for itself.
    pub fn permit<E>(&self, on_pool_thread: bool) -> (permitted: Result<(), Error<E>>)
        ensures
            permitted is Ok <==> self.offered() && !on_pool_thread,
            permitted matches Err(error) ==> if !self.offered() {
                is_unsupported(error, "checkpoint restore and bootstrap"@)
            } else {
                is_unsupported(error, "submitting a command from a worker of the same pool"@)
            },
    {
        match self {
            Command::Checkpoint | Command::Restore | Command::Bootstrap => {
                return Err(unsupported("checkpoint restore and bootstrap"));
            },
            _ => {},
        }
        if on_pool_thread {
            return Err(unsupported("submitting a command from a worker of the same pool"));
        }
        Ok(())
    }
}

/// The answer to a command.
pub enum Response<P, E> {
    Unit,
    CommitComplete(bool),
    CommitProgress(P),
    ProfileDump(P),
    Profile(P),
    Lir(P),
    SetBalancerHints(Vec<Result<(), Error<E>>>),
    CurrentBalancerPolicies(P),
    CurrentBalancerPolicy(P),
    IsCompactionComplete(bool),
}

/// A [`Response`] as contracts see it.
pub enum Answer<P, E> {
    Unit,
    CommitComplete(bool),
    CommitProgress(P),
    ProfileDump(P),
    Profile(P),
    Lir(P),
    SetBalancerHints(Seq<Result<(), Error<E>>>),
    CurrentBalancerPolicies(P),
    CurrentBalancerPolicy(P),
    IsCompactionComplete(bool),
}

impl<P, E> View for Response<P, E> {
    type V = Answer<P, E>;

    open spec fn view(&self) -> Answer<P, E> {
        match *self {
            Response::Unit => Answer::Unit,
            Response::CommitComplete(complete) => Answer::CommitComplete(complete),
            Response::CommitProgress(progress) => Answer::CommitProgress(progress),
            Response::ProfileDump(dump) => Answer::ProfileDump(dump),
            Response::Profile(profile) => Answer::Profile(profile),
            Response::Lir(lir) => Answer::Lir(lir),
            Response::SetBalancerHints(results) => Answer::SetBalancerHints(results@),
            Response::CurrentBalancerPolicies(policies) => Answer::CurrentBalancerPolicies(
                policies,
            ),
            Response::CurrentBalancerPolicy(policy) => Answer::CurrentBalancerPolicy(policy),
            Response::IsCompactionComplete(complete) => Answer::IsCompactionComplete(complete),
        }
    }
}

/// One operation of the circuit engine, asked for during a turn.
pub enum Call {
    Step,
    StartTransaction,
    StartCommitTransaction,
    IsCommitComplete,
    CommitProgress,
    EnableCpuProfiler,
    /// Dump the profile of a circuit that has run for so many nanoseconds.
    DumpProfile(u128),
    DumpGraph,
    /// Read the profile of a circuit that has run for so many nanoseconds.
    Profile(u128),
    Lir,
    SetAutoRebalance(bool),
    SetBalancerHintByGlobalId(String, String),
    SetBalancerHint(String, String),
    GetCurrentBalancerPolicies,
    GetCurrentBalancerPolicy(String),
    Rebalance,
    StartCompaction,
    IsCompactionComplete,
}

/// What the circuit engine returned for a [`Call`].
pub enum Reply<P, E> {
    /// It was done, or it failed.
    Done(Result<(), Error<E>>),
    /// The yes or no that was asked for.
    Flag(bool),
    /// The value that was asked for.
    Value(P),
}

impl Call {
    /// `reply` has the form that this call returns.
    pub open spec fn fits<P, E>(self, reply: Reply<P, E>) -> bool {
        match self {
            Call::IsCommitComplete | Call::IsCompactionComplete => reply is Flag,
            Call::CommitProgress
            | Call::DumpProfile(_)
            | Call::DumpGraph
            | Call::Profile(_)
            | Call::Lir
            | Call::GetCurrentBalancerPolicies
            | Call::GetCurrentBalancerPolicy(_) => reply is Value,
            _ => reply is Done,
        }
    }
}

} // verus!

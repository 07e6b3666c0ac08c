//! One circuit on its worker: a turn of it, cut at every call into the circuit engine.

use crate::channel::{asked_once, try_recv_command};
use crate::command::{Answer, Call, Command, Reply, Response};
use crate::error::{is_unsupported, unsupported, Error};
use crossbeam::channel::Receiver;
use std::collections::VecDeque;
use vstd::prelude::*;

verus! {

/// The value that a pending query asks for.
#[derive(Clone, Copy, Debug, PartialEq, Eq, Structural)]
pub enum Query {
    CommitProgress,
    ProfileDump,
    Profile,
    Lir,
    Policies,
    Policy,
}

/// How far a turn has come: which reply of the circuit engine it is waiting for.
pub enum Stage<E> {
    /// No turn is under way.
    Idle,
    /// The step of a running transaction.
    Stepping,
    /// Whether that step completed the commit.
    Stepped,
    /// The start of a whole transaction.
    Starting,
    /// The start of its commit.
    Committing,
    /// Whether it was complete from the start.
    Opened,
    /// An operation that is answered by `Unit`.
    Acknowledging,
    /// The single step of a `Step` command.
    SingleStep,
    /// Whether that step completed the commit.
    SingleStepped,
    /// A value to be passed on.
    Querying(Query),
    /// Whether compaction is complete.
    Compaction,
    /// A balancer hint, with those that are still to come and what became of the earlier ones.
    Hinting { global: bool, rest: VecDeque<(String, String)>, results: Vec<Result<(), Error<E>>> },
}

/// A [`Stage`] as contracts see it.
pub enum Phase<E> {
    Idle,
    Stepping,
    Stepped,
    Starting,
    Committing,
    Opened,
    Acknowledging,
    SingleStep,
    SingleStepped,
    Querying(Query),
    Compaction,
    Hinting { global: bool, rest: Seq<(String, String)>, results: Seq<Result<(), Error<E>>> },
}

impl<E> View for Stage<E> {
    type V = Phase<E>;

    open spec fn view(&self) -> Phase<E> {
        match *self {
            Stage::Idle => Phase::Idle,
            Stage::Stepping => Phase::Stepping,
            Stage::Stepped => Phase::Stepped,
            Stage::Starting => Phase::Starting,
            Stage::Committing => Phase::Committing,
            Stage::Opened => Phase::Opened,
            Stage::Acknowledging => Phase::Acknowledging,
            Stage::SingleStep => Phase::SingleStep,
            Stage::SingleStepped => Phase::SingleStepped,
            Stage::Querying(query) => Phase::Querying(query),
            Stage::Compaction => Phase::Compaction,
            Stage::Hinting { global, rest, results } => Phase::Hinting {
                global,
                rest: rest@,
                results: results@,
            },
        }
    }
}

impl<E> Phase<E> {
    /// `reply` has the form that this phase waits for.
    pub open spec fn answered_by<P>(self, reply: Reply<P, E>) -> bool {
        match self {
            Phase::Idle => false,
            Phase::Stepped | Phase::Opened | Phase::SingleStepped | Phase::Compaction => {
                reply is Flag
            },
            Phase::Querying(_) => reply is Value,
            _ => reply is Done,
        }
    }
}

/// The next thing to do in a turn.
pub enum Turn<E> {
    /// Make this call on the circuit, and resume the turn with its reply.
    Ask(Call),
    /// The turn is over: it wants another one, it does not, or the circuit failed.
    Over(Result<bool, Error<E>>),
}

/// A circuit on its worker. `H` is what the worker's thread keeps for it: the circuit itself, and
/// the channel on which its holder gets answers.
pub struct Entry<H, P, E> {
    pub host: H,
    pub commands: Receiver<Command>,
    /// A whole transaction is under way.
    pub transaction: bool,
    /// When the circuit was put in the ready queue, if it is there. In nanoseconds of the
    /// worker's clock.
    pub queued: Option<u128>,
    /// How long the circuit has run, in nanoseconds.
    pub elapsed: u128,
    /// The answer to the command that the last turn served.
    pub response: Option<Response<P, E>>,
    /// The last turn ran a step.
    pub stepped: bool,
    pub stage: Stage<E>,
}

/// An [`Entry`] as contracts see it.
pub struct EntryView<H, P, E> {
    pub host: H,
    pub commands: Receiver<Command>,
    pub transaction: bool,
    pub queued: Option<u128>,
    pub elapsed: u128,
    pub response: Option<Answer<P, E>>,
    pub stepped: bool,
    pub stage: Phase<E>,
}

impl<H, P, E> View for Entry<H, P, E> {
    type V = EntryView<H, P, E>;

    open spec fn view(&self) -> EntryView<H, P, E> {
        EntryView {
            host: self.host,
            commands: self.commands,
            transaction: self.transaction,
            queued: self.queued,
            elapsed: self.elapsed,
            response: match self.response {
                Some(response) => Some(response@),
                None => None,
            },
            stepped: self.stepped,
            stage: self.stage@,
        }
    }
}

impl<H, P, E> EntryView<H, P, E> {
    /// A turn that waits for the reply to `call`.
    pub open spec fn asking(self, stage: Phase<E>, call: Call) -> (Self, Turn<E>) {
        (EntryView { stage, ..self }, Turn::Ask(call))
    }

    /// A turn that ends with an answer for the holder of the circuit.
    pub open spec fn answering(self, answer: Answer<P, E>) -> (Self, Turn<E>) {
        (
            EntryView { stage: Phase::Idle, response: Some(answer), ..self },
            Turn::Over(Ok(false)),
        )
    }

    /// A turn that ends without one.
    pub open spec fn ending(self, result: Result<bool, Error<E>>) -> (Self, Turn<E>) {
        (EntryView { stage: Phase::Idle, ..self }, Turn::Over(result))
    }

    /// Hints are set one after the other; after the last, what became of each is the answer.
    pub open spec fn hinting(
        self,
        global: bool,
        hints: Seq<(String, String)>,
        results: Seq<Result<(), Error<E>>>,
    ) -> (Self, Turn<E>) {
        if hints.len() == 0 {
            self.answering(Answer::SetBalancerHints(results))
        } else {
            let (id, hint) = hints[0];
            self.asking(
                Phase::Hinting { global, rest: hints.skip(1), results },
                if global {
                    Call::SetBalancerHintByGlobalId(id, hint)
                } else {
                    Call::SetBalancerHint(id, hint)
                },
            )
        }
    }

    /// A turn of a circuit that is in the midst of a transaction: it steps, whatever commands wait.
    pub open spec fn stepping(self) -> (Self, Turn<E>) {
        (EntryView { stepped: false, ..self }).asking(Phase::Stepping, Call::Step)
    }

    /// A turn that serves a command, one that is [offered](Command::offered).
    pub open spec fn serving(self, command: Command) -> (Self, Turn<E>) {
        let entry = EntryView { stepped: false, ..self };
        match command {
            Command::Transaction => entry.asking(Phase::Starting, Call::StartTransaction),
            Command::StartTransaction => entry.asking(Phase::Acknowledging, Call::StartTransaction),
            Command::CommitTransaction => entry.asking(
                Phase::Acknowledging,
                Call::StartCommitTransaction,
            ),
            Command::Step => entry.asking(Phase::SingleStep, Call::Step),
            Command::CommitProgress => entry.asking(
                Phase::Querying(Query::CommitProgress),
                Call::CommitProgress,
            ),
            Command::EnableProfiler => entry.asking(Phase::Acknowledging, Call::EnableCpuProfiler),
            Command::DumpProfile => entry.asking(
                Phase::Querying(Query::ProfileDump),
                Call::DumpProfile(entry.elapsed),
            ),
            Command::RetrieveGraph => entry.asking(
                Phase::Querying(Query::ProfileDump),
                Call::DumpGraph,
            ),
            Command::RetrieveProfile => entry.asking(
                Phase::Querying(Query::Profile),
                Call::Profile(entry.elapsed),
            ),
            Command::GetLir => entry.asking(Phase::Querying(Query::Lir), Call::Lir),
            Command::SetAutoRebalance(enable) => entry.asking(
                Phase::Acknowledging,
                Call::SetAutoRebalance(enable),
            ),
            Command::SetBalancerHintsByGlobalId(hints) => entry.hinting(
                true,
                hints@,
                Seq::empty(),
            ),
            Command::SetBalancerHints(hints) => entry.hinting(false, hints@, Seq::empty()),
            Command::GetCurrentBalancerPolicies => entry.asking(
                Phase::Querying(Query::Policies),
                Call::GetCurrentBalancerPolicies,
            ),
            Command::GetCurrentBalancerPolicy(id) => entry.asking(
                Phase::Querying(Query::Policy),
                Call::GetCurrentBalancerPolicy(id),
            ),
            Command::Rebalance => entry.asking(Phase::Acknowledging, Call::Rebalance),
            Command::StartCompaction => entry.asking(Phase::Acknowledging, Call::StartCompaction),
            Command::IsCompactionComplete => entry.asking(
                Phase::Compaction,
                Call::IsCompactionComplete,
            ),
            Command::Checkpoint | Command::Restore | Command::Bootstrap => arbitrary(),
        }
    }

    /// The turn goes on after an operation that was done, or failed.
    ///
    /// A failure ends the turn with its error, except for a balancer hint, whose failure is part
    /// of the answer.
    pub open spec fn after_done(self, outcome: Result<(), Error<E>>) -> (Self, Turn<E>) {
        match (self.stage, outcome) {
            (Phase::Hinting { global, rest, results }, _) => self.hinting(
                global,
                rest,
                results.push(outcome),
            ),
            (_, Err(error)) => self.ending(Err(error)),
            (Phase::Stepping, Ok(_)) => (EntryView { stepped: true, ..self }).asking(
                Phase::Stepped,
                Call::IsCommitComplete,
            ),
            (Phase::Starting, Ok(_)) => self.asking(
                Phase::Committing,
                Call::StartCommitTransaction,
            ),
            (Phase::Committing, Ok(_)) => self.asking(Phase::Opened, Call::IsCommitComplete),
            (Phase::SingleStep, Ok(_)) => (EntryView { stepped: true, ..self }).asking(
                Phase::SingleStepped,
                Call::IsCommitComplete,
            ),
            (_, Ok(_)) => self.answering(Answer::Unit),
        }
    }

    /// The turn goes on after a question was answered by yes or no.
    ///
    /// A transaction whose commit is not complete wants another turn; one whose commit is
    /// complete is answered.
    pub open spec fn after_flag(self, flag: bool) -> (Self, Turn<E>) {
        match self.stage {
            Phase::Stepped | Phase::Opened => if flag {
                (EntryView { transaction: false, ..self }).answering(Answer::Unit)
            } else {
                (EntryView { transaction: true, ..self }).ending(Ok(true))
            },
            Phase::SingleStepped => self.answering(Answer::CommitComplete(flag)),
            _ => self.answering(Answer::IsCompactionComplete(flag)),
        }
    }

    /// The turn goes on after a value was returned: it is the answer.
    pub open spec fn after_value(self, value: P) -> (Self, Turn<E>) {
        self.answering(
            match self.stage {
                Phase::Querying(Query::CommitProgress) => Answer::CommitProgress(value),
                Phase::Querying(Query::ProfileDump) => Answer::ProfileDump(value),
                Phase::Querying(Query::Profile) => Answer::Profile(value),
                Phase::Querying(Query::Lir) => Answer::Lir(value),
                Phase::Querying(Query::Policies) => Answer::CurrentBalancerPolicies(value),
                _ => Answer::CurrentBalancerPolicy(value),
            },
        )
    }

    /// The turn goes on after `reply`.
    pub open spec fn resuming(self, reply: Reply<P, E>) -> (Self, Turn<E>) {
        match reply {
            Reply::Done(outcome) => self.after_done(outcome),
            Reply::Flag(flag) => self.after_flag(flag),
            Reply::Value(value) => self.after_value(value),
        }
    }

    /// What a turn that found `command` waiting has come to, when it is cut for the first time.
    ///
    /// Nothing is done where nothing waits, and nothing is asked of the circuit for a command that
    /// is not offered.
    pub open spec fn accepting(
        self,
        command: Option<Command>,
        after: Self,
        turn: Turn<E>,
    ) -> bool {
        let entry = EntryView { stepped: false, ..self };
        match command {
            None => (after, turn) == entry.ending(Ok(false)),
            Some(command) => if command.offered() {
                (after, turn) == self.serving(command)
            } else {
                &&& after == (EntryView { stage: Phase::Idle, ..entry })
                &&& turn matches Turn::Over(Err(error)) && is_unsupported(
                    error,
                    "checkpoint restore and bootstrap"@,
                )
            },
        }
    }

    /// The same for a turn that looks for a command itself, once. `commands` is the channel after
    /// that.
    pub open spec fn taking(
        self,
        command: Option<Command>,
        commands: Receiver<Command>,
        after: Self,
        turn: Turn<E>,
    ) -> bool {
        &&& asked_once(self.commands, command, commands)
        &&& (EntryView { commands, ..self }).accepting(command, after, turn)
    }
}

/// After `turn` the entry waits for a reply to the call that is asked, or for nothing.
pub open spec fn waits_for<P, E>(stage: Phase<E>, turn: Turn<E>) -> bool {
    match turn {
        Turn::Ask(call) => forall|reply: Reply<P, E>|
            #![trigger stage.answered_by(reply)]
            call.fits(reply) ==> stage.answered_by(reply),
        Turn::Over(_) => stage is Idle,
    }
}

impl<H, P, E> Entry<H, P, E> {
    /// A circuit that has just been built: nothing is under way, and nothing has run.
    pub fn new(host: H, commands: Receiver<Command>) -> (entry: Self)
        ensures
            entry@ == (EntryView {
                host,
                commands,
                transaction: false,
                queued: None::<u128>,
                elapsed: 0,
                response: None::<Answer<P, E>>,
                stepped: false,
                stage: Phase::Idle,
            }),
    {
        Entry {
            host,
            commands,
            transaction: false,
            queued: None,
            elapsed: 0,
            response: None,
            stepped: false,
            stage: Stage::Idle,
        }
    }

    /// A circuit that has just been built lives on only if the one who asked for it was still
    /// there to hear of it.
    pub fn move_in(host: H, commands: Receiver<Command>, heard: bool) -> (entry: Option<Self>)
        ensures
            entry is Some <==> heard,
            entry matches Some(entry) ==> entry@ == (EntryView {
                host,
                commands,
                transaction: false,
                queued: None::<u128>,
                elapsed: 0,
                response: None::<Answer<P, E>>,
                stepped: false,
                stage: Phase::Idle,
            }),
    {
        if heard {
            Some(Entry::new(host, commands))
        } else {
            None
        }
    }

    /// Begin a turn: step the transaction that is under way, or else serve the command that waits.
    ///
    /// While a transaction is under way no command is taken from the channel.
    pub fn turn(&mut self) -> (turn: Turn<E>)
        ensures
            old(self)@.transaction ==> (final(self)@, turn) == old(self)@.stepping(),
            !old(self)@.transaction ==> exists|
                command: Option<Command>,
                commands: Receiver<Command>,
            |
                #[trigger] old(self)@.taking(command, commands, final(self)@, turn),
            waits_for::<P, E>(final(self)@.stage, turn),
    {
        if self.transaction {
            self.stepped = false;
            self.ask(Stage::Stepping, Call::Step)
        } else {
            let command = try_recv_command(&mut self.commands);
            let ghost commands = self@.commands;
            let turn = self.accept(command);
            assert(old(self)@.taking(command, commands, self@, turn));
            turn
        }
    }

    /// Begin a turn with the command that was found waiting, if one was.
    pub fn accept(&mut self, command: Option<Command>) -> (turn: Turn<E>)
        ensures
            old(self)@.accepting(command, final(self)@, turn),
            waits_for::<P, E>(final(self)@.stage, turn),
    {
        self.stepped = false;
        let command = match command {
            Some(command) => command,
            None => return self.end(Ok(false)),
        };
        match command {
            Command::Transaction => self.ask(Stage::Starting, Call::StartTransaction),
            Command::StartTransaction => self.ask(Stage::Acknowledging, Call::StartTransaction),
            Command::CommitTransaction => self.ask(
                Stage::Acknowledging,
                Call::StartCommitTransaction,
            ),
            Command::Step => self.ask(Stage::SingleStep, Call::Step),
            Command::CommitProgress => self.ask(
                Stage::Querying(Query::CommitProgress),
                Call::CommitProgress,
            ),
            Command::EnableProfiler => self.ask(Stage::Acknowledging, Call::EnableCpuProfiler),
            Command::DumpProfile => self.ask(
                Stage::Querying(Query::ProfileDump),
                Call::DumpProfile(self.elapsed),
            ),
            Command::RetrieveGraph => self.ask(
                Stage::Querying(Query::ProfileDump),
                Call::DumpGraph,
            ),
            Command::RetrieveProfile => self.ask(
                Stage::Querying(Query::Profile),
                Call::Profile(self.elapsed),
            ),
            Command::GetLir => self.ask(Stage::Querying(Query::Lir), Call::Lir),
            Command::SetAutoRebalance(enable) => self.ask(
                Stage::Acknowledging,
                Call::SetAutoRebalance(enable),
            ),
            Command::SetBalancerHintsByGlobalId(hints) => {
                let rest = queue(hints);
                self.hint(true, rest, Vec::new())
            },
            Command::SetBalancerHints(hints) => {
                let rest = queue(hints);
                self.hint(false, rest, Vec::new())
            },
            Command::GetCurrentBalancerPolicies => self.ask(
                Stage::Querying(Query::Policies),
                Call::GetCurrentBalancerPolicies,
            ),
            Command::GetCurrentBalancerPolicy(id) => self.ask(
                Stage::Querying(Query::Policy),
                Call::GetCurrentBalancerPolicy(id),
            ),
            Command::Rebalance => self.ask(Stage::Acknowledging, Call::Rebalance),
            Command::StartCompaction => self.ask(Stage::Acknowledging, Call::StartCompaction),
            Command::IsCompactionComplete => self.ask(
                Stage::Compaction,
                Call::IsCompactionComplete,
            ),
            Command::Checkpoint | Command::Restore | Command::Bootstrap => self.end(
                Err(unsupported("checkpoint restore and bootstrap")),
            ),
        }
    }

    /// Go on with a turn, with the reply to the call that it asked for.
    pub fn resume(&mut self, reply: Reply<P, E>) -> (turn: Turn<E>)
        requires
            old(self)@.stage.answered_by(reply),
        ensures
            (final(self)@, turn) == old(self)@.resuming(reply),
            waits_for::<P, E>(final(self)@.stage, turn),
    {
        let mut stage = Stage::Idle;
        std::mem::swap(&mut stage, &mut self.stage);
        match reply {
            Reply::Done(outcome) => self.done(stage, outcome),
            Reply::Flag(flag) => match stage {
                Stage::Stepped | Stage::Opened => {
                    self.transaction = !flag;
                    if flag {
                        self.answer(Response::Unit)
                    } else {
                        self.end(Ok(true))
                    }
                },
                Stage::SingleStepped => self.answer(Response::CommitComplete(flag)),
                _ => self.answer(Response::IsCompactionComplete(flag)),
            },
            Reply::Value(value) => self.answer(
                match stage {
                    Stage::Querying(Query::CommitProgress) => Response::CommitProgress(value),
                    Stage::Querying(Query::ProfileDump) => Response::ProfileDump(value),
                    Stage::Querying(Query::Profile) => Response::Profile(value),
                    Stage::Querying(Query::Lir) => Response::Lir(value),
                    Stage::Querying(Query::Policies) => Response::CurrentBalancerPolicies(value),
                    _ => Response::CurrentBalancerPolicy(value),
                },
            ),
        }
    }

    fn done(&mut self, stage: Stage<E>, outcome: Result<(), Error<E>>) -> (turn: Turn<E>)
        requires
            stage@.answered_by(Reply::<P, E>::Done(outcome)),
        ensures
            (final(self)@, turn) == (EntryView { stage: stage@, ..old(self)@ }).after_done(outcome),
            waits_for::<P, E>(final(self)@.stage, turn),
    {
        match stage {
            Stage::Hinting { global, rest, results } => {
                let mut results = results;
                results.push(outcome);
                self.hint(global, rest, results)
            },
            stage => match outcome {
                Err(error) => self.end(Err(error)),
                Ok(_) => match stage {
                    Stage::Stepping => {
                        self.stepped = true;
                        self.ask(Stage::Stepped, Call::IsCommitComplete)
                    },
                    Stage::Starting => self.ask(Stage::Committing, Call::StartCommitTransaction),
                    Stage::Committing => self.ask(Stage::Opened, Call::IsCommitComplete),
                    Stage::SingleStep => {
                        self.stepped = true;
                        self.ask(Stage::SingleStepped, Call::IsCommitComplete)
                    },
                    _ => self.answer(Response::Unit),
                },
            },
        }
    }

    fn hint(
        &mut self,
        global: bool,
        hints: VecDeque<(String, String)>,
        results: Vec<Result<(), Error<E>>>,
    ) -> (turn: Turn<E>)
        ensures
            (final(self)@, turn) == old(self)@.hinting(global, hints@, results@),
            waits_for::<P, E>(final(self)@.stage, turn),
    {
        let mut rest = hints;
        match rest.pop_front() {
            None => self.answer(Response::SetBalancerHints(results)),
            Some((id, hint)) => {
                let call = if global {
                    Call::SetBalancerHintByGlobalId(id, hint)
                } else {
                    Call::SetBalancerHint(id, hint)
                };
                self.ask(Stage::Hinting { global, rest, results }, call)
            },
        }
    }

    fn ask(&mut self, stage: Stage<E>, call: Call) -> (turn: Turn<E>)
        ensures
            (final(self)@, turn) == old(self)@.asking(stage@, call),
    {
        self.stage = stage;
        Turn::Ask(call)
    }

    fn answer(&mut self, response: Response<P, E>) -> (turn: Turn<E>)
        ensures
            (final(self)@, turn) == old(self)@.answering(response@),
    {
        self.stage = Stage::Idle;
        self.response = Some(response);
        Turn::Over(Ok(false))
    }

    fn end(&mut self, result: Result<bool, Error<E>>) -> (turn: Turn<E>)
        ensures
            (final(self)@, turn) == old(self)@.ending(result),
    {
        self.stage = Stage::Idle;
        Turn::Over(result)
    }
}

/// The same items, to be taken from the front.
pub(crate) fn queue<T>(items: Vec<T>) -> (queue: VecDeque<T>)
    ensures
        queue@ == items@,
{
    let ghost all = items@;
    let mut items = items;
    let mut queue: VecDeque<T> = VecDeque::new();
    while items.len() > 0
        invariant
            items@ + queue@ =~= all,
        decreases items@.len(),
    {
        if let Some(item) = items.pop() {
            queue.push_front(item);
        }
    }
    queue
}

} // verus!

//! What commands are for: the calls that they make on a circuit, and the answers that they get.

use crate::channel::{asked, linked};
use crate::command::{Answer, Call, Command, Reply, Response};
use crate::entry::{Entry, EntryView, Phase, Stage, Turn};
use crate::error::{is_unsupported, Error};
use crossbeam::channel::{Receiver, Sender};
use vstd::prelude::*;

verus! {

/// The turn is over, and leaves this answer.
pub open spec fn answers<H, P, E>(
    result: (EntryView<H, P, E>, Turn<E>),
    answer: Answer<P, E>,
) -> bool {
    &&& result.1 == Turn::<E>::Over(Ok(false))
    &&& result.0.response == Some(answer)
    &&& result.0.stage is Idle
}

/// Every command begins with the call that it is named for, and hands on its own argument; the
/// commands that ask for a profile hand on how long the circuit has run. Commands that pooled
/// circuits do not offer are refused without a call.
pub proof fn law_commands_make_their_calls<H, P, E>(
    entry: EntryView<H, P, E>,
    command: Command,
    after: EntryView<H, P, E>,
    turn: Turn<E>,
)
    requires
        entry.accepting(Some(command), after, turn),
    ensures
        match command {
            Command::Transaction => turn == Turn::<E>::Ask(Call::StartTransaction),
            Command::StartTransaction => turn == Turn::<E>::Ask(Call::StartTransaction),
            Command::CommitTransaction => turn == Turn::<E>::Ask(Call::StartCommitTransaction),
            Command::Step => turn == Turn::<E>::Ask(Call::Step),
            Command::CommitProgress => turn == Turn::<E>::Ask(Call::CommitProgress),
            Command::EnableProfiler => turn == Turn::<E>::Ask(Call::EnableCpuProfiler),
            Command::DumpProfile => turn == Turn::<E>::Ask(Call::DumpProfile(entry.elapsed)),
            Command::RetrieveGraph => turn == Turn::<E>::Ask(Call::DumpGraph),
            Command::RetrieveProfile => turn == Turn::<E>::Ask(Call::Profile(entry.elapsed)),
            Command::GetLir => turn == Turn::<E>::Ask(Call::Lir),
            Command::SetAutoRebalance(enable) => turn == Turn::<E>::Ask(
                Call::SetAutoRebalance(enable),
            ),
            Command::SetBalancerHintsByGlobalId(hints) => if hints@.len() == 0 {
                turn == Turn::<E>::Over(Ok(false))
            } else {
                turn == Turn::<E>::Ask(
                    Call::SetBalancerHintByGlobalId(hints@[0].0, hints@[0].1),
                )
            },
            Command::SetBalancerHints(hints) => if hints@.len() == 0 {
                turn == Turn::<E>::Over(Ok(false))
            } else {
                turn == Turn::<E>::Ask(Call::SetBalancerHint(hints@[0].0, hints@[0].1))
            },
            Command::GetCurrentBalancerPolicies => turn == Turn::<E>::Ask(
                Call::GetCurrentBalancerPolicies,
            ),
            Command::GetCurrentBalancerPolicy(id) => turn == Turn::<E>::Ask(
                Call::GetCurrentBalancerPolicy(id),
            ),
            Command::Rebalance => turn == Turn::<E>::Ask(Call::Rebalance),
            Command::StartCompaction => turn == Turn::<E>::Ask(Call::StartCompaction),
            Command::IsCompactionComplete => turn == Turn::<E>::Ask(Call::IsCompactionComplete),
            Command::Checkpoint | Command::Restore | Command::Bootstrap => turn matches Turn::Over(
                Err(error),
            ) && is_unsupported(error, "checkpoint restore and bootstrap"@),
        },
{
}

/// A turn that begins changes nothing of the circuit but how far the turn has come: it has not
/// stepped yet, and nothing is answered, except that no hints at all are answered at once. Where
/// no command waits, the turn is over.
pub proof fn law_turns_begin_with_nothing_done<H, P, E>(
    entry: EntryView<H, P, E>,
    command: Option<Command>,
    after: EntryView<H, P, E>,
    turn: Turn<E>,
)
    requires
        entry.accepting(command, after, turn),
    ensures
        after.host == entry.host,
        after.commands == entry.commands,
        after.queued == entry.queued,
        after.elapsed == entry.elapsed,
        after.transaction == entry.transaction,
        !after.stepped,
        turn is Over <==> after.stage is Idle,
        command is None ==> turn == Turn::<E>::Over(Ok(false)) && after.response == entry.response,
        after.response != entry.response ==> answers(
            (after, turn),
            Answer::SetBalancerHints(Seq::empty()),
        ) && match command {
            Some(Command::SetBalancerHintsByGlobalId(hints)) => hints@.len() == 0,
            Some(Command::SetBalancerHints(hints)) => hints@.len() == 0,
            _ => false,
        },
        match command {
            Some(Command::SetBalancerHintsByGlobalId(hints)) => hints@.len() == 0 ==> answers(
                (after, turn),
                Answer::SetBalancerHints(Seq::empty()),
            ),
            Some(Command::SetBalancerHints(hints)) => hints@.len() == 0 ==> answers(
                (after, turn),
                Answer::SetBalancerHints(Seq::empty()),
            ),
            _ => true,
        },
{
}

/// A turn that looks for a command looks once, and serves what it has found.
pub proof fn law_turns_look_once<H, P, E>(
    entry: EntryView<H, P, E>,
    command: Option<Command>,
    commands: Receiver<Command>,
    after: EntryView<H, P, E>,
    turn: Turn<E>,
)
    requires
        entry.taking(command, commands, after, turn),
    ensures
        after.commands == commands,
        asked(commands) == asked(entry.commands).push(command),
        forall|sender: Sender<Command>|
            linked(sender, commands) == linked(sender, entry.commands),
        (EntryView { commands, ..entry }).accepting(command, after, turn),
{
}

/// A turn of a circuit whose transaction is under way makes a step, and nothing else of the
/// circuit has changed by then.
pub proof fn law_transactions_go_on_with_a_step<H, P, E>(entry: EntryView<H, P, E>)
    ensures
        ({
            let (after, turn) = entry.stepping();
            &&& turn == Turn::<E>::Ask(Call::Step)
            &&& after.host == entry.host
            &&& after.commands == entry.commands
            &&& after.queued == entry.queued
            &&& after.elapsed == entry.elapsed
            &&& after.transaction == entry.transaction
            &&& after.response == entry.response
            &&& !after.stepped
            &&& forall|reply: Reply<P, E>|
                #[trigger] after.stage.answered_by(reply) <==> reply is Done
        }),
{
}

/// A reply changes nothing of the circuit but what it tells: the circuit has stepped from the
/// moment that a step has succeeded, and a transaction is under way from the moment that it is
/// known to have more to commit until it is known to have committed all.
pub proof fn law_replies_tell_what_they_say<H, P, E>(
    entry: EntryView<H, P, E>,
    reply: Reply<P, E>,
)
    requires
        entry.stage.answered_by(reply),
    ensures
        ({
            let (after, turn) = entry.resuming(reply);
            &&& after.host == entry.host
            &&& after.commands == entry.commands
            &&& after.queued == entry.queued
            &&& after.elapsed == entry.elapsed
            &&& after.stepped == (entry.stepped || ((entry.stage is Stepping
                || entry.stage is SingleStep) && reply matches Reply::Done(Ok(_))))
            &&& after.transaction == (if entry.stage is Stepped || entry.stage is Opened {
                reply == Reply::<P, E>::Flag(false)
            } else {
                entry.transaction
            })
            &&& turn is Over <==> after.stage is Idle
        }),
{
}

/// A turn asks for a step, of the engine, exactly where its next reply says whether that step
/// succeeded; and at most once, at its beginning.
pub proof fn law_steps_are_known_for_what_they_are<H, P, E>(
    entry: EntryView<H, P, E>,
    command: Option<Command>,
    after: EntryView<H, P, E>,
    turn: Turn<E>,
    reply: Reply<P, E>,
)
    requires
        entry.accepting(command, after, turn),
    ensures
        turn == Turn::<E>::Ask(Call::Step) <==> after.stage is Stepping || after.stage
            is SingleStep,
        entry.stepping().0.stage is Stepping,
        entry.stage.answered_by(reply) ==> {
            let (next, goes_on) = entry.resuming(reply);
            goes_on != Turn::<E>::Ask(Call::Step) && !(next.stage is Stepping) && !(next.stage
                is SingleStep)
        },
{
}

/// A command that has done what it was asked to do is answered accordingly: an operation by
/// `Unit`, a question by what the circuit has said, and a step by whether the commit is complete.
/// With a step the circuit has stepped.
pub proof fn law_commands_are_answered<H, P, E>(
    entry: EntryView<H, P, E>,
    command: Command,
    after: EntryView<H, P, E>,
    turn: Turn<E>,
    value: P,
    flag: bool,
)
    requires
        entry.accepting(Some(command), after, turn),
    ensures
        ({
            let done = after.resuming(Reply::Done(Ok(())));
            let told = after.resuming(Reply::Flag(flag));
            let given = after.resuming(Reply::Value(value));
            match command {
                Command::Transaction => {
                    let committing = done.0.resuming(Reply::Done(Ok(())));
                    let opened = committing.0.resuming(Reply::Flag(flag));
                    &&& done.1 == Turn::<E>::Ask(Call::StartCommitTransaction)
                    &&& committing.1 == Turn::<E>::Ask(Call::IsCommitComplete)
                    &&& if flag {
                        answers(opened, Answer::Unit) && !opened.0.transaction
                    } else {
                        &&& opened.1 == Turn::<E>::Over(Ok(true))
                        &&& opened.0.transaction
                        &&& opened.0.response == entry.response
                    }
                },
                Command::Step => {
                    let stepped = done.0.resuming(Reply::Flag(flag));
                    &&& done.1 == Turn::<E>::Ask(Call::IsCommitComplete)
                    &&& answers(stepped, Answer::CommitComplete(flag))
                    &&& stepped.0.stepped
                },
                Command::StartTransaction
                | Command::CommitTransaction
                | Command::EnableProfiler
                | Command::SetAutoRebalance(_)
                | Command::Rebalance
                | Command::StartCompaction => answers(done, Answer::Unit) && !done.0.stepped,
                Command::CommitProgress => answers(given, Answer::CommitProgress(value)),
                Command::DumpProfile => answers(given, Answer::ProfileDump(value)),
                Command::RetrieveGraph => answers(given, Answer::ProfileDump(value)),
                Command::RetrieveProfile => answers(given, Answer::Profile(value)),
                Command::GetLir => answers(given, Answer::Lir(value)),
                Command::GetCurrentBalancerPolicies => answers(
                    given,
                    Answer::CurrentBalancerPolicies(value),
                ),
                Command::GetCurrentBalancerPolicy(_) => answers(
                    given,
                    Answer::CurrentBalancerPolicy(value),
                ),
                Command::IsCompactionComplete => answers(
                    told,
                    Answer::IsCompactionComplete(flag),
                ),
                _ => true,
            }
        }),
{
}

/// A running transaction makes a step, then sees whether that completed its commit: if so it is
/// answered, and otherwise it wants another turn. Either way the circuit has stepped.
pub proof fn law_transactions_see_each_step_through<H, P, E>(
    entry: EntryView<H, P, E>,
    complete: bool,
)
    ensures
        ({
            let stepped = entry.stepping().0.resuming(Reply::Done(Ok(())));
            let seen = stepped.0.resuming(Reply::Flag(complete));
            &&& stepped.1 == Turn::<E>::Ask(Call::IsCommitComplete)
            &&& seen.0.stepped
            &&& seen.0.transaction == !complete
            &&& if complete {
                answers(seen, Answer::Unit)
            } else {
                seen.1 == Turn::<E>::Over(Ok(true)) && seen.0.response == entry.response
            }
        }),
{
}

/// An operation that fails ends the turn with its own error, and changes nothing else of the
/// circuit. Only a balancer hint that fails is a matter of the answer.
pub proof fn law_errors_end_the_turn<H, P, E>(entry: EntryView<H, P, E>, error: Error<E>)
    requires
        entry.stage.answered_by(Reply::<P, E>::Done(Err(error))),
        !(entry.stage is Hinting),
    ensures
        entry.resuming(Reply::Done(Err(error))).1 == Turn::<E>::Over(Err(error)),
        ({
            let after = entry.resuming(Reply::Done(Err(error))).0;
            &&& after.stage is Idle
            &&& after.response == entry.response
            &&& after.transaction == entry.transaction
            &&& after.stepped == entry.stepped
        }),
{
}

/// The calls that a command with several balancer hints makes: those of one command, after some of
/// them have come back with these outcomes.
pub open spec fn hint_calls<H, P, E>(
    first: (EntryView<H, P, E>, Turn<E>),
    outcomes: Seq<Result<(), Error<E>>>,
) -> (EntryView<H, P, E>, Turn<E>)
    decreases outcomes.len(),
{
    if outcomes.len() == 0 {
        first
    } else {
        hint_calls(first, outcomes.drop_last()).0.resuming(Reply::Done(outcomes.last()))
    }
}

/// A command with balancer hints sets each of them, in order, by the operator's name or by its
/// global one as the command says, whatever became of those before; then it is answered by what
/// became of each.
pub proof fn law_every_hint_is_set<H, P, E>(
    entry: EntryView<H, P, E>,
    command: Command,
    after: EntryView<H, P, E>,
    turn: Turn<E>,
    global: bool,
    hints: Seq<(String, String)>,
    outcomes: Seq<Result<(), Error<E>>>,
)
    requires
        entry.accepting(Some(command), after, turn),
        match command {
            Command::SetBalancerHintsByGlobalId(named) => global && hints == named@,
            Command::SetBalancerHints(named) => !global && hints == named@,
            _ => false,
        },
        outcomes.len() <= hints.len(),
    ensures
        if outcomes.len() < hints.len() {
            let (id, hint) = hints[outcomes.len() as int];
            hint_calls((after, turn), outcomes).1 == Turn::<E>::Ask(
                if global {
                    Call::SetBalancerHintByGlobalId(id, hint)
                } else {
                    Call::SetBalancerHint(id, hint)
                },
            )
        } else {
            answers(hint_calls((after, turn), outcomes), Answer::SetBalancerHints(outcomes))
        },
{
    lemma_hint_calls(entry, command, after, turn, global, hints, outcomes);
}

proof fn lemma_hint_calls<H, P, E>(
    entry: EntryView<H, P, E>,
    command: Command,
    after: EntryView<H, P, E>,
    turn: Turn<E>,
    global: bool,
    hints: Seq<(String, String)>,
    outcomes: Seq<Result<(), Error<E>>>,
)
    requires
        entry.accepting(Some(command), after, turn),
        match command {
            Command::SetBalancerHintsByGlobalId(named) => global && hints == named@,
            Command::SetBalancerHints(named) => !global && hints == named@,
            _ => false,
        },
        outcomes.len() <= hints.len(),
    ensures
        hint_calls((after, turn), outcomes) == (EntryView { stepped: false, ..entry }).hinting(
            global,
            hints.skip(outcomes.len() as int),
            outcomes,
        ),
    decreases outcomes.len(),
{
    let n = outcomes.len() as int;
    if n == 0 {
        assert(hints.skip(0) =~= hints);
        assert(outcomes =~= Seq::empty());
    } else {
        let earlier = outcomes.drop_last();
        lemma_hint_calls(entry, command, after, turn, global, hints, earlier);
        assert(hints.skip(n - 1).skip(1) =~= hints.skip(n));
        assert(earlier.push(outcomes.last()) =~= outcomes);
    }
}

/// A circuit is called only for an answer of the form that the call has: done or failed, yes or no,
/// or a value.
pub proof fn law_calls_have_their_replies<H, P, E>(
    entry: EntryView<H, P, E>,
    command: Option<Command>,
    after: EntryView<H, P, E>,
    turn: Turn<E>,
    reply: Reply<P, E>,
)
    requires
        entry.accepting(command, after, turn) || (entry.stage.answered_by(reply) && (after, turn)
            == entry.resuming(reply)),
    ensures
        turn matches Turn::Ask(call) ==> forall|next: Reply<P, E>|
            #[trigger] after.stage.answered_by(next) <==> match call {
                Call::IsCommitComplete | Call::IsCompactionComplete => next is Flag,
                Call::CommitProgress
                | Call::DumpProfile(_)
                | Call::DumpGraph
                | Call::Profile(_)
                | Call::Lir
                | Call::GetCurrentBalancerPolicies
                | Call::GetCurrentBalancerPolicy(_) => next is Value,
                _ => next is Done,
            },
        turn is Over ==> forall|next: Reply<P, E>| !#[trigger] after.stage.answered_by(next),
{
}

/// Commands are refused to their holder for two reasons only: the pool does not offer them, which
/// holds of checkpoints, of restoring them and of starting from them; or the holder is a thread of
/// the pool.
pub proof fn law_all_other_commands_are_offered(command: Command)
    ensures
        command.offered() <==> match command {
            Command::Checkpoint | Command::Restore | Command::Bootstrap => false,
            _ => true,
        },
{
}

/// Contracts see a circuit as it is: every part of it that they speak of is that part, and how far
/// its turn has come is told apart.
pub proof fn law_circuits_are_seen_as_they_are<H, P, E>(entry: Entry<H, P, E>)
    ensures
        entry@.host == entry.host,
        entry@.commands == entry.commands,
        entry@.transaction == entry.transaction,
        entry@.queued == entry.queued,
        entry@.elapsed == entry.elapsed,
        entry@.stepped == entry.stepped,
        entry@.response is Some <==> entry.response is Some,
        entry.response matches Some(response) ==> entry@.response == Some(response@),
        entry@.stage is Idle <==> entry.stage is Idle,
        entry@.stage is Stepping <==> entry.stage is Stepping,
        entry@.stage is SingleStep <==> entry.stage is SingleStep,
        entry.stage matches Stage::Querying(query) ==> entry@.stage == Phase::<E>::Querying(query),
        entry.stage matches Stage::Hinting { global, rest, results } ==> entry@.stage
            == (Phase::<E>::Hinting { global, rest: rest@, results: results@ }),
{
}

/// Contracts see an answer as it is: of its kind, and with what it says.
pub proof fn law_answers_are_seen_as_they_are<P, E>(response: Response<P, E>)
    ensures
        match response {
            Response::Unit => response@ is Unit,
            Response::CommitComplete(complete) => response@ == Answer::<P, E>::CommitComplete(
                complete,
            ),
            Response::CommitProgress(value) => response@ == Answer::<P, E>::CommitProgress(value),
            Response::ProfileDump(value) => response@ == Answer::<P, E>::ProfileDump(value),
            Response::Profile(value) => response@ == Answer::<P, E>::Profile(value),
            Response::Lir(value) => response@ == Answer::<P, E>::Lir(value),
            Response::SetBalancerHints(results) => response@
                == Answer::<P, E>::SetBalancerHints(results@),
            Response::CurrentBalancerPolicies(value) => response@
                == Answer::<P, E>::CurrentBalancerPolicies(value),
            Response::CurrentBalancerPolicy(value) => response@
                == Answer::<P, E>::CurrentBalancerPolicy(value),
            Response::IsCompactionComplete(complete) => response@
                == Answer::<P, E>::IsCompactionComplete(complete),
        },
{
}

} // verus!

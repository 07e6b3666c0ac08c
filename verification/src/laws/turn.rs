//! What a circuit's turns keep to.

use crate::command::{Answer, Call, Command, Reply};
use crate::entry::{EntryView, Phase, Turn};
use crate::error::Error;
use vstd::prelude::*;

verus! {

impl<H, P, E> EntryView<H, P, E> {
    /// A turn is under way that has to do with the running transaction, if one is running, and
    /// with a command otherwise; or none is.
    pub open spec fn consistent(self) -> bool {
        match self.stage {
            Phase::Idle => true,
            Phase::Stepping | Phase::Stepped => self.transaction,
            _ => !self.transaction,
        }
    }

    /// A whole turn of a running transaction, of which the step succeeds and leaves the commit
    /// `complete` or not.
    pub open spec fn after_step(self, complete: bool) -> Self {
        self.stepping().0.after_done(Ok(())).0.after_flag(complete).0
    }

    /// As many such turns.
    pub open spec fn after_steps(self, complete: Seq<bool>) -> Self
        decreases complete.len(),
    {
        if complete.len() == 0 {
            self
        } else {
            self.after_steps(complete.drop_last()).after_step(complete.last())
        }
    }

    /// The circuit after so many balancer hints were set, with these outcomes.
    pub open spec fn after_hints(self, outcomes: Seq<Result<(), Error<E>>>) -> Self
        decreases outcomes.len(),
    {
        if outcomes.len() == 0 {
            self
        } else {
            self.after_hints(outcomes.drop_last()).after_done(outcomes.last()).0
        }
    }
}

/// A turn keeps apart what belongs to the running transaction and what to a command, and it ends
/// in one of three ways: it wants another turn exactly if a transaction is running, it leaves an
/// answer, or the circuit failed.
pub proof fn law_turns_end_answered<H, P, E>(entry: EntryView<H, P, E>, reply: Reply<P, E>)
    requires
        entry.consistent(),
        entry.stage.answered_by(reply),
    ensures
        ({
            let (after, turn) = entry.resuming(reply);
            &&& after.consistent()
            &&& turn == Turn::<E>::Over(Ok(true)) ==> after.transaction && after.response
                == entry.response
            &&& turn == Turn::<E>::Over(Ok(false)) ==> !after.transaction && after.response is Some
            &&& turn is Ask || (turn matches Turn::Over(Err(_))) ==> after.response
                == entry.response
        }),
{
}

/// A turn begins consistent, in a transaction and outside of one.
pub proof fn law_turns_begin_consistent<H, P, E>(
    entry: EntryView<H, P, E>,
    command: Option<Command>,
    after: EntryView<H, P, E>,
    turn: Turn<E>,
)
    requires
        entry.stage is Idle,
    ensures
        entry.transaction ==> entry.stepping().0.consistent(),
        !entry.transaction && entry.accepting(command, after, turn) ==> after.consistent(),
{
}

impl<E> Phase<E> {
    /// How many calls on the circuit are left in the turn, the one that is waited for among them,
    /// if none fails.
    pub open spec fn calls_left(self) -> int {
        match self {
            Phase::Idle => 0,
            Phase::Starting => 3,
            Phase::Stepping | Phase::Committing | Phase::SingleStep => 2,
            Phase::Hinting { rest, .. } => rest.len() as int + 1,
            _ => 1,
        }
    }
}

impl Command {
    /// How many calls on the circuit a turn makes that serves this command, if none fails.
    pub open spec fn calls(self) -> int {
        match self {
            Command::Transaction => 3,
            Command::Step => 2,
            Command::SetBalancerHintsByGlobalId(hints) => hints@.len() as int,
            Command::SetBalancerHints(hints) => hints@.len() as int,
            Command::Checkpoint | Command::Restore | Command::Bootstrap => 0,
            _ => 1,
        }
    }
}

/// A turn makes as many calls as its command takes, or two if it steps a transaction.
pub proof fn law_turns_make_so_many_calls<H, P, E>(
    entry: EntryView<H, P, E>,
    command: Option<Command>,
    after: EntryView<H, P, E>,
    turn: Turn<E>,
)
    requires
        entry.accepting(command, after, turn),
    ensures
        entry.stepping().0.stage.calls_left() == 2,
        after.stage.calls_left() == (match command {
            Some(command) => command.calls(),
            None => 0,
        }),
        turn is Over <==> after.stage.calls_left() == 0,
{
}

/// A turn comes to an end: each reply leaves one call less to make, or ends the turn.
pub proof fn law_turns_end<H, P, E>(entry: EntryView<H, P, E>, reply: Reply<P, E>)
    requires
        entry.stage.answered_by(reply),
    ensures
        ({
            let (after, turn) = entry.resuming(reply);
            &&& entry.stage.calls_left() > 0
            &&& match turn {
                Turn::Ask(_) => after.stage.calls_left() == entry.stage.calls_left() - 1
                    && after.stage.calls_left() > 0,
                Turn::Over(Ok(_)) => entry.stage.calls_left() == 1 && after.stage is Idle,
                Turn::Over(Err(_)) => after.stage is Idle,
            }
        }),
{
}

/// A transaction is started, then its commit is started; then it is over if nothing is left to do,
/// and otherwise goes on in further turns.
pub proof fn law_transactions_commit<H, P, E>(entry: EntryView<H, P, E>, complete: bool)
    requires
        !entry.transaction,
    ensures
        ({
            let (started, first) = entry.serving(Command::Transaction);
            let (committing, second) = started.resuming(Reply::Done(Ok(())));
            let (opened, third) = committing.resuming(Reply::Done(Ok(())));
            let (after, fourth) = opened.resuming(Reply::Flag(complete));
            &&& first == Turn::<E>::Ask(Call::StartTransaction)
            &&& second == Turn::<E>::Ask(Call::StartCommitTransaction)
            &&& third == Turn::<E>::Ask(Call::IsCommitComplete)
            &&& fourth == Turn::<E>::Over(Ok(!complete))
            &&& after.transaction == !complete
            &&& after.response == (if complete {
                Some(Answer::Unit)
            } else {
                entry.response
            })
            &&& !after.stepped
        }),
{
}

/// A running transaction takes one step in each turn, and yields after it; it is answered once,
/// after the step that completes its commit.
pub proof fn law_transactions_step_until_complete<H, P, E>(
    entry: EntryView<H, P, E>,
    complete: Seq<bool>,
)
    requires
        entry.transaction,
        complete.len() > 0,
        forall|i: int| 0 <= i < complete.len() - 1 ==> !(#[trigger] complete[i]),
    ensures
        ({
            let before = entry.after_steps(complete.drop_last());
            let (stepping, first) = before.stepping();
            let (stepped, second) = stepping.resuming(Reply::Done(Ok(())));
            let (after, third) = stepped.resuming(Reply::Flag(complete.last()));
            &&& before.transaction
            &&& before.response == entry.response
            &&& first == Turn::<E>::Ask(Call::Step)
            &&& second == Turn::<E>::Ask(Call::IsCommitComplete)
            &&& third == Turn::<E>::Over(Ok(!complete.last()))
            &&& after == entry.after_steps(complete)
            &&& after.stepped
            &&& after.transaction == !complete.last()
            &&& after.response == (if complete.last() {
                Some(Answer::Unit)
            } else {
                entry.response
            })
        }),
    decreases complete.len(),
{
    if complete.len() > 1 {
        law_transactions_step_until_complete(entry, complete.drop_last());
    }
}

/// A step that fails ends the turn with its error; it is not counted, and there is no answer.
pub proof fn law_failed_steps_do_not_count<H, P, E>(entry: EntryView<H, P, E>, error: Error<E>)
    requires
        entry.transaction,
    ensures
        ({
            let (after, turn) = entry.stepping().0.resuming(Reply::Done(Err(error)));
            &&& turn == Turn::<E>::Over(Err(error))
            &&& !after.stepped
            &&& after.response == entry.response
        }),
{
}

/// Nothing is asked of a circuit for a command that pooled circuits do not offer, and nothing of
/// it changes: it is refused before it does anything.
pub proof fn law_refusals_change_nothing<H, P, E>(
    entry: EntryView<H, P, E>,
    command: Command,
    after: EntryView<H, P, E>,
    turn: Turn<E>,
)
    requires
        !command.offered(),
        entry.stage is Idle,
        entry.accepting(Some(command), after, turn),
    ensures
        turn is Over,
        after == (EntryView { stepped: false, ..entry }),
{
}

/// Balancer hints are set one after the other, in order, and each exactly once; a failure of one
/// does not keep the next from being set. The answer says in the same order what became of each.
pub proof fn law_hints_are_set_in_order<H, P, E>(
    entry: EntryView<H, P, E>,
    global: bool,
    hints: Seq<(String, String)>,
    outcomes: Seq<Result<(), Error<E>>>,
)
    requires
        outcomes.len() < hints.len(),
    ensures
        ({
            let before = entry.hinting(global, hints, Seq::empty()).0.after_hints(outcomes);
            let (id, hint) = hints[outcomes.len() as int];
            &&& (before, Turn::<E>::Ask(
                if global {
                    Call::SetBalancerHintByGlobalId(id, hint)
                } else {
                    Call::SetBalancerHint(id, hint)
                },
            )) == entry.hinting(global, hints.skip(outcomes.len() as int), outcomes)
            &&& forall|outcome: Result<(), Error<E>>|
                outcomes.len() + 1 == hints.len() ==> #[trigger] before.resuming(
                    Reply::Done(outcome),
                ) == entry.answering(Answer::SetBalancerHints(outcomes.push(outcome)))
        }),
    decreases outcomes.len(),
{
    let n = outcomes.len() as int;
    assert(hints.skip(n).skip(1) =~= hints.skip(n + 1));
    if n == 0 {
        assert(outcomes =~= Seq::empty());
    } else {
        let earlier = outcomes.drop_last();
        law_hints_are_set_in_order(entry, global, hints, earlier);
        assert(earlier.push(outcomes.last()) =~= outcomes);
        assert(hints.skip(n - 1).skip(1) =~= hints.skip(n));
    }
}

} // verus!

use crossbeam::channel::{unbounded, Sender};
use runtime_pool::entry::{Stage, Turn};
use runtime_pool::error::unsupported;
use runtime_pool::{Call, Command, Entry, Reply, Response};

type Error = runtime_pool::Error<String>;
type Circuit = Entry<(), u8, String>;

fn circuit() -> (Circuit, Sender<Command>) {
    let (sender, commands) = unbounded();
    (Entry::new((), commands), sender)
}

fn done() -> Reply<u8, String> {
    Reply::Done(Ok(()))
}

fn failed() -> Error {
    Error::Engine("failed".to_string())
}

/// The call with which a command begins, and the circuit that waits for its reply.
fn begin(command: Command) -> (Circuit, Call) {
    let (mut entry, _) = circuit();
    entry.elapsed = 42;
    entry.stepped = true;
    match entry.accept(Some(command)) {
        Turn::Ask(call) => {
            assert!(!entry.stepped);
            (entry, call)
        }
        Turn::Over(_) => unreachable!(),
    }
}

/// The answer to a command that ends with `reply`.
fn answer(mut entry: Circuit, reply: Reply<u8, String>) -> Response<u8, String> {
    assert!(matches!(entry.resume(reply), Turn::Over(Ok(false))));
    assert!(matches!(entry.stage, Stage::Idle));
    entry.response.unwrap()
}

fn next(entry: &mut Circuit, reply: Reply<u8, String>) -> Call {
    match entry.resume(reply) {
        Turn::Ask(call) => call,
        Turn::Over(_) => unreachable!(),
    }
}

#[test]
fn new_circuits_have_done_nothing() {
    let (entry, _sender) = circuit();
    assert!(!entry.transaction && !entry.stepped && entry.elapsed == 0);
    assert!(entry.queued.is_none() && entry.response.is_none());
    let (_, commands) = unbounded::<Command>();
    assert!(Circuit::move_in((), commands.clone(), true).is_some());
    assert!(Circuit::move_in((), commands, false).is_none());
}

#[test]
fn nothing_is_done_where_no_command_waits() {
    let (mut entry, sender) = circuit();
    assert!(matches!(entry.turn(), Turn::Over(Ok(false))));
    assert!(entry.response.is_none());
    sender.send(Command::Rebalance).unwrap();
    assert!(matches!(entry.turn(), Turn::Ask(Call::Rebalance)));
    drop(sender);
    assert!(matches!(entry.resume(done()), Turn::Over(Ok(false))));
    assert!(matches!(entry.turn(), Turn::Over(Ok(false))));
}

#[test]
fn transactions_that_are_complete_at_once_are_answered_at_once() {
    let (mut entry, call) = begin(Command::Transaction);
    assert!(matches!(call, Call::StartTransaction));
    assert!(matches!(next(&mut entry, done()), Call::StartCommitTransaction));
    assert!(matches!(next(&mut entry, done()), Call::IsCommitComplete));
    assert!(matches!(entry.resume(Reply::Flag(true)), Turn::Over(Ok(false))));
    assert!(!entry.transaction && !entry.stepped);
    assert!(matches!(entry.response, Some(Response::Unit)));
}

#[test]
fn transactions_step_until_they_are_complete() {
    let (mut entry, sender) = circuit();
    sender.send(Command::Transaction).unwrap();
    sender.send(Command::GetLir).unwrap();
    assert!(matches!(entry.turn(), Turn::Ask(Call::StartTransaction)));
    next(&mut entry, done());
    next(&mut entry, done());
    assert!(matches!(entry.resume(Reply::Flag(false)), Turn::Over(Ok(true))));
    assert!(entry.transaction && !entry.stepped && entry.response.is_none());
    for complete in [false, false, true] {
        // The next command waits until the transaction is over.
        assert!(matches!(entry.turn(), Turn::Ask(Call::Step)));
        assert!(!entry.stepped);
        assert!(matches!(next(&mut entry, done()), Call::IsCommitComplete));
        assert!(entry.stepped && entry.response.is_none());
        match entry.resume(Reply::Flag(complete)) {
            Turn::Over(Ok(again)) => assert_eq!(again, !complete),
            _ => unreachable!(),
        }
        assert_eq!(entry.transaction, !complete);
    }
    assert!(matches!(entry.response, Some(Response::Unit)));
    assert!(matches!(entry.turn(), Turn::Ask(Call::Lir)));
}

#[test]
fn failures_end_the_turn() {
    let (mut entry, _) = begin(Command::Transaction);
    next(&mut entry, done());
    let turn = entry.resume(Reply::Done(Err(failed())));
    assert!(matches!(turn, Turn::Over(Err(e)) if e == failed()));
    assert!(!entry.transaction && entry.response.is_none());
    for command in [
        Command::Transaction,
        Command::StartTransaction,
        Command::CommitTransaction,
        Command::SetAutoRebalance(true),
        Command::Step,
    ] {
        let (mut entry, _) = begin(command);
        let turn = entry.resume(Reply::Done(Err(failed())));
        assert!(matches!(turn, Turn::Over(Err(e)) if e == failed()));
        assert!(!entry.stepped && entry.response.is_none());
    }
}

#[test]
fn failed_steps_do_not_count() {
    let (mut entry, _sender) = circuit();
    entry.transaction = true;
    entry.stepped = true;
    assert!(matches!(entry.turn(), Turn::Ask(Call::Step)));
    let turn = entry.resume(Reply::Done(Err(failed())));
    assert!(matches!(turn, Turn::Over(Err(e)) if e == failed()));
    assert!(!entry.stepped && entry.response.is_none());
}

#[test]
fn single_steps_say_whether_the_commit_is_complete() {
    for complete in [false, true] {
        let (mut entry, call) = begin(Command::Step);
        assert!(matches!(call, Call::Step));
        assert!(matches!(next(&mut entry, done()), Call::IsCommitComplete));
        assert!(entry.stepped);
        match answer(entry, Reply::Flag(complete)) {
            Response::CommitComplete(answer) => assert_eq!(answer, complete),
            _ => unreachable!(),
        }
    }
}

#[test]
fn operations_are_acknowledged() {
    let (entry, call) = begin(Command::StartTransaction);
    assert!(matches!(call, Call::StartTransaction));
    assert!(!entry.transaction);
    assert!(matches!(answer(entry, done()), Response::Unit));
    let (entry, call) = begin(Command::CommitTransaction);
    assert!(matches!(call, Call::StartCommitTransaction));
    assert!(matches!(answer(entry, done()), Response::Unit));
    let (entry, call) = begin(Command::EnableProfiler);
    assert!(matches!(call, Call::EnableCpuProfiler));
    assert!(matches!(answer(entry, done()), Response::Unit));
    let (entry, call) = begin(Command::SetAutoRebalance(true));
    assert!(matches!(call, Call::SetAutoRebalance(true)));
    assert!(matches!(answer(entry, done()), Response::Unit));
    let (entry, call) = begin(Command::Rebalance);
    assert!(matches!(call, Call::Rebalance));
    assert!(matches!(answer(entry, done()), Response::Unit));
    let (entry, call) = begin(Command::StartCompaction);
    assert!(matches!(call, Call::StartCompaction));
    assert!(matches!(answer(entry, done()), Response::Unit));
}

#[test]
fn values_are_passed_on() {
    let (entry, call) = begin(Command::CommitProgress);
    assert!(matches!(call, Call::CommitProgress));
    assert!(matches!(answer(entry, Reply::Value(1)), Response::CommitProgress(1)));
    let (entry, call) = begin(Command::DumpProfile);
    assert!(matches!(call, Call::DumpProfile(42)));
    assert!(matches!(answer(entry, Reply::Value(2)), Response::ProfileDump(2)));
    let (entry, call) = begin(Command::RetrieveGraph);
    assert!(matches!(call, Call::DumpGraph));
    assert!(matches!(answer(entry, Reply::Value(3)), Response::ProfileDump(3)));
    let (entry, call) = begin(Command::RetrieveProfile);
    assert!(matches!(call, Call::Profile(42)));
    assert!(matches!(answer(entry, Reply::Value(4)), Response::Profile(4)));
    let (entry, call) = begin(Command::GetLir);
    assert!(matches!(call, Call::Lir));
    assert!(matches!(answer(entry, Reply::Value(5)), Response::Lir(5)));
    let (entry, call) = begin(Command::GetCurrentBalancerPolicies);
    assert!(matches!(call, Call::GetCurrentBalancerPolicies));
    assert!(matches!(answer(entry, Reply::Value(6)), Response::CurrentBalancerPolicies(6)));
    let (entry, call) = begin(Command::GetCurrentBalancerPolicy("join".to_string()));
    assert!(matches!(call, Call::GetCurrentBalancerPolicy(id) if id == "join"));
    assert!(matches!(answer(entry, Reply::Value(7)), Response::CurrentBalancerPolicy(7)));
    let (entry, call) = begin(Command::IsCompactionComplete);
    assert!(matches!(call, Call::IsCompactionComplete));
    assert!(matches!(answer(entry, Reply::Flag(true)), Response::IsCompactionComplete(true)));
}

fn hint(id: &str, hint: &str) -> (String, String) {
    (id.to_string(), hint.to_string())
}

#[test]
fn hints_are_set_in_order() {
    let hints = || vec![hint("a", "1"), hint("b", "2"), hint("c", "3")];
    let outcomes = vec![Ok(()), Err(failed()), Ok(())];
    for global in [false, true] {
        let (mut entry, mut call) = begin(if global {
            Command::SetBalancerHintsByGlobalId(hints())
        } else {
            Command::SetBalancerHints(hints())
        });
        for (i, (id, hint)) in hints().into_iter().enumerate() {
            let set = match call {
                Call::SetBalancerHintByGlobalId(id, hint) => (true, id, hint),
                Call::SetBalancerHint(id, hint) => (false, id, hint),
                _ => unreachable!(),
            };
            assert_eq!(set, (global, id, hint));
            if i < 2 {
                call = next(&mut entry, Reply::Done(outcomes[i].clone()));
            } else {
                call = Call::Step;
            }
        }
        match answer(entry, Reply::Done(outcomes[2].clone())) {
            Response::SetBalancerHints(results) => assert_eq!(results, outcomes),
            _ => unreachable!(),
        }
    }
}

#[test]
fn turns_make_so_many_calls() {
    let hints = vec![hint("a", "1"), hint("b", "2"), hint("c", "3"), hint("d", "4")];
    for (command, calls) in [
        (Command::Transaction, 3),
        (Command::StartTransaction, 1),
        (Command::Step, 2),
        (Command::GetLir, 1),
        (Command::IsCompactionComplete, 1),
        (Command::SetBalancerHints(hints), 4),
    ] {
        let (mut entry, _) = begin(command);
        let mut made = 1;
        loop {
            let reply = match entry.stage {
                Stage::Stepped | Stage::Opened | Stage::SingleStepped | Stage::Compaction => {
                    Reply::Flag(false)
                }
                Stage::Querying(_) => Reply::Value(0),
                _ => done(),
            };
            match entry.resume(reply) {
                Turn::Ask(_) => made += 1,
                Turn::Over(_) => break,
            }
        }
        assert_eq!(made, calls);
    }
}

#[test]
fn no_hints_are_answered_at_once() {
    let (mut entry, _sender) = circuit();
    let turn = entry.accept(Some(Command::SetBalancerHints(Vec::new())));
    assert!(matches!(turn, Turn::Over(Ok(false))));
    assert!(matches!(entry.response, Some(Response::SetBalancerHints(r)) if r.is_empty()));
}

#[test]
fn commands_are_permitted_unless_they_are_not_offered() {
    let refused = unsupported("checkpoint restore and bootstrap");
    for command in [Command::Checkpoint, Command::Restore, Command::Bootstrap] {
        assert_eq!(command.permit::<String>(false), Err(refused.clone()));
        assert_eq!(command.permit::<String>(true), Err(refused.clone()));
    }
    assert_eq!(Command::Transaction.permit::<String>(false), Ok(()));
    assert_eq!(Command::IsCompactionComplete.permit::<String>(false), Ok(()));
    let own = unsupported("submitting a command from a worker of the same pool");
    assert_eq!(Command::Transaction.permit::<String>(true), Err(own));
}

#[test]
fn refusals_change_nothing() {
    for command in [Command::Checkpoint, Command::Restore, Command::Bootstrap] {
        let (mut entry, _sender) = circuit();
        entry.elapsed = 5;
        let refused = unsupported("checkpoint restore and bootstrap");
        assert!(matches!(entry.accept(Some(command)), Turn::Over(Err(e)) if e == refused));
        assert!(!entry.transaction && !entry.stepped && entry.elapsed == 5);
        assert!(entry.response.is_none() && matches!(entry.stage, Stage::Idle));
    }
}

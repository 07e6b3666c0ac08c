//! The loop of a worker, cut wherever its thread has to do something.
//!
//! The thread is told by an [`Action`] what to do, and tells with an [`Event`] what came of it. It
//! has a clock, which it reads in nanoseconds.

use crate::channel::{looked, Message};
use crate::command::{Call, Command, Reply, Response};
use crate::counters::{counted, Counters};
use crate::entry::{Entry, EntryView, Turn};
use crate::error::Error;
use crate::worker::{
    charged, follows, After, Ended, Intake, Worker, WorkerView, INTAKE_LIMIT, LONGEST_NANOS,
};
use crossbeam::channel::{Receiver, Sender};
use vstd::prelude::*;

verus! {

/// What a worker's thread has to do next.
pub enum Action<H, P, E> {
    /// See whether the pool is being stopped, and tell with [`Event::Killed`].
    AskKilled,
    /// Build this circuit, and hand it in with [`Event::Built`].
    Build(u64),
    /// See whether this circuit has been stopped, and tell with [`Event::Inspected`].
    Inspect(u64),
    /// A circuit was dropped: say so on this channel.
    Acknowledge(Sender<()>),
    /// Stop the pool.
    StopPool,
    /// Nothing.
    Pass,
    /// Enter this circuit's context, and remember the time.
    Enter(u64),
    /// Make this call on the circuit, and tell with [`Event::Replied`] or [`Event::Panicked`].
    Call(u64, Call),
    /// Leave this circuit's context, and tell with [`Event::Left`] how long it was.
    Leave(u64),
    /// Send the holder of this circuit an answer.
    Answer(u64, Response<P, E>),
    /// Send the holder of this circuit an error, then drop the circuit.
    Fail(Error<E>, Entry<H, P, E>),
    /// End: all circuits have been dropped, and the mailbox with what was in it.
    Exit,
}

/// What came of an action.
pub enum Event<H, P, E> {
    /// Whether the pool is being stopped, and the time.
    Killed(bool, u128),
    /// The circuit, if it was built.
    Built(Option<Entry<H, P, E>>),
    /// Whether the circuit has been stopped, and the time.
    Inspected(bool, u128),
    /// It was done.
    Done,
    /// The circuit's reply to a call.
    Replied(Reply<P, E>),
    /// The circuit panicked.
    Panicked,
    /// How long the circuit ran, and the time.
    Left(u128, u128),
}

/// Where the loop stands: what its thread was last told to do.
pub enum At<E> {
    /// The round begins: is the pool being stopped?
    Top,
    /// A circuit is being built.
    Building(u64),
    /// Has the circuit been stopped that has a command waiting?
    Inspecting(u64),
    /// Something is done about a message, or nothing.
    Intake,
    /// Messages have been taken: is the pool being stopped?
    Before,
    /// It is this circuit's turn.
    Entering(u64),
    /// The circuit was called.
    Calling(u64),
    /// The turn has come to an end.
    Leaving(u64, Ended<E>),
    /// Something is done about how it ended.
    Settling,
    /// The loop has ended.
    Ended,
}

impl<E> At<E> {
    /// The circuit whose turn it is.
    pub open spec fn running(self) -> Option<u64> {
        match self {
            At::Entering(id) => Some(id),
            At::Calling(id) => Some(id),
            At::Leaving(id, _) => Some(id),
            _ => None,
        }
    }
}

/// A worker, its mailbox, and where its loop stands.
pub struct WorkerLoop<H, P, E> {
    worker: Worker<H, P, E>,
    mailbox: Option<Receiver<Message>>,
    at: At<E>,
}

/// A [`WorkerLoop`] as contracts see it.
#[verifier::ext_equal]
pub struct LoopView<H, P, E> {
    pub worker: WorkerView<H, P, E>,
    /// The mailbox, until the loop has ended.
    pub mailbox: Option<Receiver<Message>>,
    pub at: At<E>,
}

impl<H, P, E> View for WorkerLoop<H, P, E> {
    type V = LoopView<H, P, E>;

    closed spec fn view(&self) -> LoopView<H, P, E> {
        LoopView { worker: self.worker@, mailbox: self.mailbox, at: self.at }
    }
}

impl<H, P, E> LoopView<H, P, E> {
    /// The circuit whose turn it is lives here, and there is a mailbox until the loop has ended.
    pub open spec fn sound(self) -> bool {
        &&& self.at.running() matches Some(id) ==> self.worker.entries.contains_key(id)
        &&& self.mailbox is Some <==> !(self.at is Ended)
    }

    /// Besides, nobody is twice in line, and the circuit whose turn it is, is not.
    pub open spec fn wf(self) -> bool {
        &&& self.sound()
        &&& self.worker.wf()
        &&& self.at.running() matches Some(id) ==> !self.worker.ready.contains(id)
    }

    /// The event is an answer to what the thread was told to do.
    pub open spec fn expects(self, event: Event<H, P, E>) -> bool {
        match self.at {
            At::Top | At::Before => event is Killed,
            At::Building(_) => event is Built,
            At::Inspecting(_) => event is Inspected,
            At::Intake | At::Entering(_) | At::Settling => event is Done,
            At::Calling(id) => match event {
                Event::Replied(reply) => self.worker.entries[id].stage.answered_by(reply),
                Event::Panicked => true,
                _ => false,
            },
            At::Leaving(id, _) => event matches Event::Left(spent, _)
                && self.worker.entries[id].elapsed + spent <= LONGEST_NANOS,
            At::Ended => false,
        }
    }

    /// The thread can tell what came of `action`, whatever it is.
    pub open spec fn listens(self, action: Action<H, P, E>) -> bool {
        match action {
            Action::AskKilled => forall|killed: bool, now: u128|
                #[trigger] self.expects(Event::Killed(killed, now)),
            Action::Build(_) => forall|built: Option<Entry<H, P, E>>|
                #[trigger] self.expects(Event::Built(built)),
            Action::Inspect(_) => forall|stopped: bool, now: u128|
                #[trigger] self.expects(Event::Inspected(stopped, now)),
            Action::Call(_, call) => {
                &&& forall|reply: Reply<P, E>|
                    call.fits(reply) ==> #[trigger] self.expects(Event::Replied(reply))
                &&& self.expects(Event::Panicked)
            },
            Action::Leave(id) => forall|spent: u128, now: u128|
                self.worker.entries[id].elapsed + spent <= LONGEST_NANOS
                    ==> #[trigger] self.expects(Event::Left(spent, now)),
            Action::Exit => true,
            _ => self.expects(Event::Done),
        }
    }

    /// A circuit that was built has a number that the worker has not seen, and is not in line.
    pub open spec fn fresh(self, event: Event<H, P, E>) -> bool {
        self.at matches At::Building(id) ==> (event matches Event::Built(Some(entry)) ==> {
            &&& !self.worker.entries.contains_key(id)
            &&& !self.worker.ready.contains(id)
            &&& entry@.queued is None
        })
    }

    /// The worker once the event has been taken in, before the loop goes on.
    pub open spec fn absorbing(self, event: Event<H, P, E>) -> WorkerView<H, P, E> {
        match (self.at, event) {
            (At::Top, _) => WorkerView { taken: 0, ..self.worker },
            (At::Building(id), Event::Built(Some(entry))) => WorkerView {
                entries: self.worker.entries.insert(id, entry@),
                ..self.worker
            },
            (At::Inspecting(id), Event::Inspected(stopped, now)) => self.worker.waking(
                id,
                stopped,
                now,
            ),
            _ => self.worker,
        }
    }

    /// The turn of a circuit goes on as `turn` says, with the circuit as `entry` describes it.
    pub open spec fn turning(
        self,
        id: u64,
        entry: EntryView<H, P, E>,
        turn: Turn<E>,
    ) -> (Self, Action<H, P, E>) {
        let worker = WorkerView { entries: self.worker.entries.insert(id, entry), ..self.worker };
        match turn {
            Turn::Ask(call) => (
                LoopView { worker, at: At::Calling(id), ..self },
                Action::Call(id, call),
            ),
            Turn::Over(result) => (
                LoopView { worker, at: At::Leaving(id, Ended::Returned(result)), ..self },
                Action::Leave(id),
            ),
        }
    }

    /// The loop takes messages, unless the pool is being stopped.
    pub open spec fn at_intake(self, event: Event<H, P, E>) -> bool {
        match self.at {
            At::Top => event matches Event::Killed(killed, _) && !killed,
            At::Building(_) | At::Inspecting(_) | At::Intake => true,
            _ => false,
        }
    }

    /// The loop has ended: it has dropped all circuits, and let go of its mailbox.
    pub open spec fn ending(self) -> Self {
        LoopView {
            worker: WorkerView { entries: Map::empty(), ..self.worker },
            mailbox: None,
            at: At::Ended,
        }
    }

    /// Where the loop goes from here, if not to the mailbox, nor to the commands of a circuit.
    pub open spec fn leading(
        self,
        event: Event<H, P, E>,
        after: Self,
        action: Action<H, P, E>,
    ) -> bool {
        match (self.at, event) {
            (At::Top | At::Before, Event::Killed(true, _)) => {
                &&& after == self.ending()
                &&& action is Exit
            },
            (At::Before, Event::Killed(false, now)) => {
                &&& after.mailbox == self.mailbox
                &&& after.worker == self.worker.advancing()
                &&& match self.worker.due() {
                    Some(id) => {
                        &&& after.at == At::<E>::Entering(id)
                        &&& action == Action::<H, P, E>::Enter(id)
                    },
                    None => after.at is Top && action is AskKilled,
                }
            },
            (At::Entering(id), Event::Done) => (after, action) == ({
                let (entry, turn) = self.worker.entries[id].stepping();
                self.turning(id, entry, turn)
            }),
            (At::Calling(id), Event::Replied(reply)) => (after, action) == ({
                let (entry, turn) = self.worker.entries[id].resuming(reply);
                self.turning(id, entry, turn)
            }),
            (At::Calling(id), Event::Panicked) => {
                &&& after == (LoopView { at: At::Leaving(id, Ended::Panicked), ..self })
                &&& action == Action::<H, P, E>::Leave(id)
            },
            (At::Leaving(id, ended), Event::Left(spent, now)) => {
                &&& after.mailbox == self.mailbox
                &&& after.worker == self.worker.finished(id, ended, spent, now)
                &&& settling(self.worker.ran(id, spent), id, ended, after.at, action)
            },
            (At::Settling, _) => after == (LoopView { at: At::Top, ..self }) && action is AskKilled,
            _ => false,
        }
    }

    /// The circuit whose turn it is looks for a command.
    pub open spec fn at_commands(self) -> bool {
        self.at matches At::Entering(id) && !self.worker.entries[id].transaction
    }

    /// It has found `command`, if any; `commands` is the channel after that.
    pub open spec fn serving(
        self,
        command: Option<Command>,
        commands: Receiver<Command>,
        entry: EntryView<H, P, E>,
        turn: Turn<E>,
        after: Self,
        action: Action<H, P, E>,
    ) -> bool {
        self.at matches At::Entering(id) && {
            &&& self.worker.entries[id].taking(command, commands, entry, turn)
            &&& (after, action) == self.turning(id, entry, turn)
        }
    }

    /// Where the loop goes from here, whatever is found in the mailbox, or among the commands of a
    /// circuit, if it looks there.
    pub open spec fn leads(
        self,
        event: Event<H, P, E>,
        after: Self,
        action: Action<H, P, E>,
    ) -> bool {
        if self.at_intake(event) {
            exists|message: Option<Message>, mailbox: Receiver<Message>|
                {
                    &&& looking(self.absorbing(event), message, self.mailbox->0, mailbox)
                    &&& (after, action) == #[trigger] taking(
                        self.absorbing(event),
                        message,
                        mailbox,
                    )
                }
        } else if self.at_commands() {
            exists|
                command: Option<Command>,
                commands: Receiver<Command>,
                entry: EntryView<H, P, E>,
                turn: Turn<E>,
            |
                #[trigger] self.serving(command, commands, entry, turn, after, action)
        } else {
            self.leading(event, after, action)
        }
    }

    /// What the event adds to the counters.
    pub open spec fn counting(self, event: Event<H, P, E>, counters: Counters) -> Counters {
        match (self.at, event) {
            (At::Before, Event::Killed(false, now)) => Counters {
                queue_nanos: counted(counters.queue_nanos, self.worker.waited(now)),
                ..counters
            },
            (At::Leaving(id, _), Event::Left(spent, _)) => charged(
                counters,
                spent,
                self.worker.entries[id].stepped,
            ),
            _ => counters,
        }
    }
}

/// The loop looks into its mailbox for a message, once, and not at all if enough were taken.
pub open spec fn looking<H, P, E>(
    worker: WorkerView<H, P, E>,
    message: Option<Message>,
    before: Receiver<Message>,
    after: Receiver<Message>,
) -> bool {
    if worker.taken < INTAKE_LIMIT {
        looked(before, worker.look(message), after)
    } else {
        message is None && after == before
    }
}

/// The loop takes a message: the one that was found, if any, and if another one is allowed.
/// `mailbox` is the mailbox after that.
pub open spec fn taking<H, P, E>(
    worker: WorkerView<H, P, E>,
    message: Option<Message>,
    mailbox: Receiver<Message>,
) -> (LoopView<H, P, E>, Action<H, P, E>) {
    let (after, intake) = if worker.taken < INTAKE_LIMIT {
        worker.polling(message)
    } else {
        (worker, Intake::Idle)
    };
    let (at, action) = match intake {
        Intake::Idle => (At::Before, Action::AskKilled),
        Intake::Build(id) => (At::Building(id), Action::Build(id)),
        Intake::Wake(id) => if worker.entries.contains_key(id) {
            (At::Inspecting(id), Action::Inspect(id))
        } else {
            (At::Intake, Action::Pass)
        },
        Intake::Acknowledge(ack) => (At::Intake, Action::Acknowledge(ack)),
        Intake::Stop => (At::Intake, Action::StopPool),
    };
    (LoopView { worker: after, mailbox: Some(mailbox), at }, action)
}

/// What the loop does about how the turn of a circuit ended: it answers, or fails the circuit, or
/// stops the pool; where there is nothing to say, a new round begins.
pub open spec fn settling<H, P, E>(
    entry: EntryView<H, P, E>,
    id: u64,
    ended: Ended<E>,
    at: At<E>,
    action: Action<H, P, E>,
) -> bool {
    match ended {
        Ended::Returned(Ok(true)) => at is Top && action is AskKilled,
        Ended::Returned(Ok(false)) => match entry.response {
            Some(answer) => {
                &&& at is Settling
                &&& action matches Action::Answer(to, response) && to == id && response@ == answer
            },
            None => at is Top && action is AskKilled,
        },
        Ended::Returned(Err(error)) => {
            &&& at is Settling
            &&& action matches Action::Fail(reason, dropped) && reason == error && dropped@
                == entry
        },
        Ended::Panicked => at is Settling && action is StopPool,
    }
}

impl<H, P, E> WorkerLoop<H, P, E> {
    /// The loop of a worker on which no circuit lives. The first action is
    /// [`Action::AskKilled`].
    pub fn new(mailbox: Receiver<Message>) -> (worker: Self)
        ensures
            worker@.wf(),
            worker@ == (LoopView {
                worker: WorkerView {
                    entries: Map::<u64, EntryView<H, P, E>>::empty(),
                    ready: Seq::<u64>::empty(),
                    taken: 0,
                },
                mailbox: Some(mailbox),
                at: At::Top,
            }),
    {
        WorkerLoop { worker: Worker::new(), mailbox: Some(mailbox), at: At::Top }
    }

    /// What the thread keeps for a circuit that lives here.
    pub fn host_mut(&mut self, id: u64) -> (host: Option<&mut H>)
        ensures
            match host {
                Some(host) => {
                    &&& old(self)@.worker.entries.contains_key(id)
                    &&& *host == old(self)@.worker.entries[id].host
                    &&& old(self)@.sound() ==> final(self)@.sound()
                    &&& old(self)@.wf() ==> final(self)@.wf()
                    &&& final(self)@ == (LoopView {
                        worker: WorkerView {
                            entries: old(self)@.worker.entries.insert(
                                id,
                                EntryView {
                                    host: *final(host),
                                    ..old(self)@.worker.entries[id]
                                },
                            ),
                            ..old(self)@.worker
                        },
                        ..old(self)@
                    })
                },
                None => {
                    &&& !old(self)@.worker.entries.contains_key(id)
                    &&& final(self)@ == old(self)@
                },
            },
    {
        match self.worker.entry_mut(id) {
            Some(entry) => Some(&mut entry.host),
            None => None,
        }
    }

    /// How long a circuit that lives here has run, in nanoseconds.
    pub fn elapsed(&self, id: u64) -> (elapsed: Option<u128>)
        ensures
            elapsed == (if self@.worker.entries.contains_key(id) {
                Some(self@.worker.entries[id].elapsed)
            } else {
                None
            }),
    {
        match self.worker.entry(id) {
            Some(entry) => Some(entry.elapsed),
            None => None,
        }
    }

    /// Go on with the loop, after what the thread was told to do has been done.
    pub fn advance(
        &mut self,
        event: Event<H, P, E>,
        counters: &mut Counters,
    ) -> (action: Action<H, P, E>)
        requires
            old(self)@.sound(),
            old(self)@.expects(event),
        ensures
            final(self)@.sound(),
            final(self)@.listens(action),
            old(self)@.leads(event, final(self)@, action),
            *final(counters) == old(self)@.counting(event, *old(counters)),
    {
        let mut at = At::Top;
        std::mem::swap(&mut at, &mut self.at);
        match (at, event) {
            (At::Top, Event::Killed(killed, _)) => {
                if killed {
                    return self.end();
                }
                self.worker.begin_round();
                self.take()
            },
            (At::Building(id), Event::Built(built)) => {
                self.worker.build(id, built);
                assert(self@.worker == old(self)@.absorbing(event));
                self.take()
            },
            (At::Inspecting(id), Event::Inspected(stopped, now)) => {
                self.worker.wake(id, stopped, now);
                self.take()
            },
            (At::Intake, _) => self.take(),
            (At::Before, Event::Killed(killed, now)) => {
                if killed {
                    return self.end();
                }
                match self.worker.next(now, counters) {
                    Some(id) => {
                        self.at = At::Entering(id);
                        Action::Enter(id)
                    },
                    None => Action::AskKilled,
                }
            },
            (At::Entering(id), _) => {
                let ghost before = old(self)@.worker.entries[id];
                let entry = self.worker.entry_mut(id).unwrap();
                let turn = entry.turn();
                let ghost (after, begun) = (entry@, turn);
                let action = self.turn_on(id, turn);
                proof {
                    assert((self@, action) == old(self)@.turning(id, after, begun));
                    if !before.transaction {
                        let (command, commands) = choose|
                            command: Option<Command>,
                            commands: Receiver<Command>,
                        |
                            #[trigger] before.taking(command, commands, after, begun);
                        assert(old(self)@.serving(command, commands, after, begun, self@, action));
                    }
                }
                action
            },
            (At::Calling(id), Event::Replied(reply)) => {
                let entry = self.worker.entry_mut(id).unwrap();
                let turn = entry.resume(reply);
                let ghost (after, resumed) = (entry@, turn);
                let action = self.turn_on(id, turn);
                assert((self@, action) == old(self)@.turning(id, after, resumed));
                action
            },
            (At::Calling(id), _) => {
                self.at = At::Leaving(id, Ended::Panicked);
                Action::Leave(id)
            },
            (At::Leaving(id, ended), Event::Left(spent, now)) => {
                match self.worker.finish(id, ended, spent, now, counters) {
                    After::Again => Action::AskKilled,
                    After::Answer(None) => Action::AskKilled,
                    After::Answer(Some(response)) => {
                        self.at = At::Settling;
                        Action::Answer(id, response)
                    },
                    After::Failed(error, entry) => {
                        self.at = At::Settling;
                        Action::Fail(error, entry)
                    },
                    After::Stop => {
                        self.at = At::Settling;
                        Action::StopPool
                    },
                }
            },
            _ => Action::AskKilled,
        }
    }

    fn end(&mut self) -> (action: Action<H, P, E>)
        ensures
            final(self)@ == old(self)@.ending(),
            action is Exit,
    {
        self.worker.close();
        self.mailbox = None;
        self.at = At::Ended;
        Action::Exit
    }

    fn take(&mut self) -> (action: Action<H, P, E>)
        requires
            old(self)@.mailbox is Some,
        ensures
            exists|message: Option<Message>, mailbox: Receiver<Message>|
                {
                    &&& looking(old(self)@.worker, message, old(self)@.mailbox->0, mailbox)
                    &&& (final(self)@, action) == #[trigger] taking(
                        old(self)@.worker,
                        message,
                        mailbox,
                    )
                },
    {
        let mut mailbox = self.mailbox.take().unwrap();
        let intake = self.worker.poll(&mut mailbox);
        let ghost message = if old(self)@.worker.taken < INTAKE_LIMIT {
            choose|message: Option<Message>|
                {
                    &&& looked(
                        old(self)@.mailbox->0,
                        old(self)@.worker.look(message),
                        mailbox,
                    )
                    &&& (self@.worker, intake) == #[trigger] old(self)@.worker.polling(message)
                }
        } else {
            None
        };
        let ghost after = mailbox;
        let (at, action) = match intake {
            Intake::Idle => (At::Before, Action::AskKilled),
            Intake::Build(id) => (At::Building(id), Action::Build(id)),
            Intake::Wake(id) => if self.worker.entry(id).is_some() {
                (At::Inspecting(id), Action::Inspect(id))
            } else {
                (At::Intake, Action::Pass)
            },
            Intake::Acknowledge(ack) => (At::Intake, Action::Acknowledge(ack)),
            Intake::Stop => (At::Intake, Action::StopPool),
        };
        self.mailbox = Some(mailbox);
        self.at = at;
        assert((self@, action) == taking(old(self)@.worker, message, after));
        action
    }

    fn turn_on(&mut self, id: u64, turn: Turn<E>) -> (action: Action<H, P, E>)
        requires
            old(self)@.worker.entries.contains_key(id),
        ensures
            (final(self)@, action) == old(self)@.turning(id, old(self)@.worker.entries[id], turn),
    {
        match turn {
            Turn::Ask(call) => {
                self.at = At::Calling(id);
                Action::Call(id, call)
            },
            Turn::Over(result) => {
                self.at = At::Leaving(id, Ended::Returned(result));
                Action::Leave(id)
            },
        }
    }
}

} // verus!

//! One worker of a pool: the circuits that live on it, and the order in which they run.

use crate::channel::{looked, recv_timeout, try_recv, Look, Message};
use crate::command::{Answer, Response};
use crate::counters::{counted, Counters};
use crate::entry::{Entry, EntryView};
use crate::error::Error;
use crossbeam::channel::{Receiver, Sender};
use std::collections::hash_map;
use std::collections::{HashMap, VecDeque};
use vstd::prelude::*;

verus! {

broadcast use vstd::std_specs::hash::group_hash_axioms;

/// How many messages a worker takes before it runs a circuit again, so that those who send them
/// cannot starve the circuits.
pub const INTAKE_LIMIT: usize = 64;

/// How long an idle worker waits for a message before it looks up again.
pub const IDLE_MILLIS: u64 = 100;

/// The longest time that a circuit's running time can express, in nanoseconds.
pub const LONGEST_NANOS: u128 = 18_446_744_073_709_551_615_999_999_999;

/// What a worker's thread has to do about a message.
pub enum Intake {
    /// There is no message, or enough were taken: run the next circuit.
    Idle,
    /// Build this circuit, and hand it in with [`Worker::build`].
    Build(u64),
    /// See whether this circuit has been stopped, and call [`Worker::wake`].
    Wake(u64),
    /// A circuit was dropped: say so on this channel.
    Acknowledge(Sender<()>),
    /// Stop the pool.
    Stop,
}

/// How a turn came to its end.
pub enum Ended<E> {
    /// It wants another one, it does not, or the circuit failed.
    Returned(Result<bool, Error<E>>),
    /// The circuit panicked.
    Panicked,
}

/// What a worker's thread has to do after a turn.
pub enum After<H, P, E> {
    /// Nothing: the circuit is in the ready queue again.
    Again,
    /// Send the holder of the circuit this answer, if there is one.
    Answer(Option<Response<P, E>>),
    /// Send the holder of the circuit this error, then drop the circuit.
    Failed(Error<E>, Entry<H, P, E>),
    /// Stop the pool.
    Stop,
}

/// A worker of a pool.
pub struct Worker<H, P, E> {
    entries: HashMap<u64, Entry<H, P, E>>,
    ready: VecDeque<u64>,
    taken: usize,
}

/// A [`Worker`] as contracts see it.
#[verifier::ext_equal]
pub struct WorkerView<H, P, E> {
    /// The circuits that live here.
    pub entries: Map<u64, EntryView<H, P, E>>,
    /// The circuits that are to run, the next one first. Those that are dropped meanwhile stay in
    /// line until it is their turn.
    pub ready: Seq<u64>,
    /// How many messages were taken since a circuit ran.
    pub taken: nat,
}

impl<H, P, E> View for Worker<H, P, E> {
    type V = WorkerView<H, P, E>;

    closed spec fn view(&self) -> WorkerView<H, P, E> {
        WorkerView {
            entries: views(self.entries@),
            ready: self.ready@,
            taken: self.taken as nat,
        }
    }
}

spec fn views<H, P, E>(entries: Map<u64, Entry<H, P, E>>) -> Map<u64, EntryView<H, P, E>> {
    entries.map_values(|entry: Entry<H, P, E>| entry@)
}

broadcast proof fn lemma_views_insert<H, P, E>(
    entries: Map<u64, Entry<H, P, E>>,
    id: u64,
    entry: Entry<H, P, E>,
)
    ensures
        #[trigger] views(entries.insert(id, entry)) == views(entries).insert(id, entry@),
{
    assert(views(entries.insert(id, entry)) =~= views(entries).insert(id, entry@));
}

broadcast proof fn lemma_views_remove<H, P, E>(entries: Map<u64, Entry<H, P, E>>, id: u64)
    ensures
        #[trigger] views(entries.remove(id)) == views(entries).remove(id),
{
    assert(views(entries.remove(id)) =~= views(entries).remove(id));
}

impl<H, P, E> WorkerView<H, P, E> {
    /// No circuit is twice in line, and those in line that live here are the ones that say so.
    pub open spec fn wf(self) -> bool {
        &&& self.ready.no_duplicates()
        &&& forall|id: u64|
            #![trigger self.entries.contains_key(id)]
            self.entries.contains_key(id) ==> (self.entries[id].queued is Some
                <==> self.ready.contains(id))
    }

    /// The worker has nothing to do but wait.
    pub open spec fn idle(self) -> bool {
        self.ready.len() == 0 && self.taken == 0
    }

    /// How the worker looks for a message: it waits for one if it has nothing else to do.
    pub open spec fn look(self, message: Option<Message>) -> Look {
        if self.idle() {
            Look::Within(IDLE_MILLIS, message)
        } else {
            Look::Now(message)
        }
    }

    /// What taking `message` comes to.
    pub open spec fn delivering(self, message: Message) -> (Self, Intake) {
        let worker = WorkerView { taken: self.taken + 1, ..self };
        match message {
            Message::Create(id) => (worker, Intake::Build(id)),
            Message::Wake(id) => (worker, Intake::Wake(id)),
            Message::Remove(id, ack) => (
                WorkerView { entries: self.entries.remove(id), ..worker },
                Intake::Acknowledge(ack),
            ),
            Message::Shutdown => (worker, Intake::Stop),
        }
    }

    /// What polling comes to when `message` was found.
    pub open spec fn polling(self, message: Option<Message>) -> (Self, Intake) {
        match message {
            Some(message) => self.delivering(message),
            None => (self, Intake::Idle),
        }
    }

    /// What waking a circuit comes to: it goes to the back of the line, unless it is in line
    /// already; one that has been stopped is dropped, and one that does not live here is not
    /// missed.
    pub open spec fn waking(self, id: u64, stopped: bool, now: u128) -> Self {
        if !self.entries.contains_key(id) {
            self
        } else if stopped {
            WorkerView { entries: self.entries.remove(id), ..self }
        } else if self.entries[id].queued is None {
            self.lining_up(id, self.entries[id], now)
        } else {
            self
        }
    }

    /// The circuit, as `entry` describes it, goes to the back of the line.
    pub open spec fn lining_up(self, id: u64, entry: EntryView<H, P, E>, now: u128) -> Self {
        WorkerView {
            entries: self.entries.insert(id, EntryView { queued: Some(now), ..entry }),
            ready: self.ready.push(id),
            ..self
        }
    }

    /// The circuit whose turn it is, if it still lives here.
    pub open spec fn due(self) -> Option<u64> {
        if self.ready.len() > 0 && self.entries.contains_key(self.ready[0]) {
            Some(self.ready[0])
        } else {
            None
        }
    }

    /// What taking the first in line comes to.
    pub open spec fn advancing(self) -> Self {
        let ready = if self.ready.len() > 0 {
            self.ready.skip(1)
        } else {
            self.ready
        };
        match self.due() {
            Some(id) => WorkerView {
                entries: self.entries.insert(
                    id,
                    EntryView { queued: None, ..self.entries[id] },
                ),
                ready,
                ..self
            },
            None => WorkerView { ready, ..self },
        }
    }

    /// The time that the circuit whose turn it is has waited in line.
    pub open spec fn waited(self, now: u128) -> int {
        match self.due() {
            Some(id) => match self.entries[id].queued {
                Some(since) => if since <= now {
                    now - since
                } else {
                    0
                },
                None => 0,
            },
            None => 0,
        }
    }

    /// The circuit `id` after it ran for so many nanoseconds.
    pub open spec fn ran(self, id: u64, spent: u128) -> EntryView<H, P, E> {
        EntryView {
            elapsed: (self.entries[id].elapsed + spent) as u128,
            ..self.entries[id]
        }
    }

    /// What the end of a turn comes to: a circuit that wants another turn goes to the back of the
    /// line, one that was served gives up its answer, and one that failed leaves. A panic is the
    /// whole pool's matter.
    pub open spec fn finished(self, id: u64, ended: Ended<E>, spent: u128, now: u128) -> Self {
        let entry = self.ran(id, spent);
        match ended {
            Ended::Returned(Ok(true)) => self.lining_up(id, entry, now),
            Ended::Returned(Ok(false)) => WorkerView {
                entries: self.entries.insert(
                    id,
                    EntryView { response: None::<Answer<P, E>>, ..entry },
                ),
                ..self
            },
            Ended::Returned(Err(_)) => WorkerView { entries: self.entries.remove(id), ..self },
            Ended::Panicked => WorkerView { entries: self.entries.insert(id, entry), ..self },
        }
    }
}

/// What is left to do after the end of a turn of the circuit that `entry` describes.
pub open spec fn follows<H, P, E>(
    entry: EntryView<H, P, E>,
    ended: Ended<E>,
    after: After<H, P, E>,
) -> bool {
    match ended {
        Ended::Returned(Ok(true)) => after is Again,
        Ended::Returned(Ok(false)) => after matches After::Answer(response) && entry.response == (
        match response {
            Some(response) => Some(response@),
            None => None,
        }),
        Ended::Returned(Err(error)) => after matches After::Failed(reason, dropped) && reason
            == error && dropped@ == entry,
        Ended::Panicked => after is Stop,
    }
}

/// The counters after a turn: time is counted, and a step if one was completed.
pub open spec fn charged(counters: Counters, spent: u128, stepped: bool) -> Counters {
    Counters {
        execution_nanos: counted(counters.execution_nanos, spent as int),
        steps: if stepped {
            counted(counters.steps, 1)
        } else {
            counters.steps
        },
        ..counters
    }
}

impl<H, P, E> Worker<H, P, E> {
    /// A worker on which no circuit lives.
    pub fn new() -> (worker: Self)
        ensures
            worker@ == (WorkerView {
                entries: Map::<u64, EntryView<H, P, E>>::empty(),
                ready: Seq::<u64>::empty(),
                taken: 0,
            }),
            worker@.wf(),
    {
        let worker = Worker { entries: HashMap::new(), ready: VecDeque::new(), taken: 0 };
        worker
    }

    /// Drop all circuits.
    pub fn close(&mut self)
        ensures
            final(self)@ == (WorkerView {
                entries: Map::<u64, EntryView<H, P, E>>::empty(),
                ..old(self)@
            }),
    {
        self.entries.clear();
    }

    /// Start taking messages anew.
    pub fn begin_round(&mut self)
        ensures
            final(self)@ == (WorkerView { taken: 0, ..old(self)@ }),
    {
        self.taken = 0;
    }

    /// Whether to wait for a message, rather than only look for one.
    pub fn waits(&self) -> (waits: bool)
        ensures
            waits == self@.idle(),
    {
        self.ready.len() == 0 && self.taken == 0
    }

    /// Take the next message from the mailbox, unless enough were taken. A worker that has nothing
    /// to do waits for one, but not for long.
    pub fn poll(&mut self, mailbox: &mut Receiver<Message>) -> (intake: Intake)
        ensures
            old(self)@.taken >= INTAKE_LIMIT ==> {
                &&& intake is Idle
                &&& final(self)@ == old(self)@
                &&& *final(mailbox) == *old(mailbox)
            },
            old(self)@.taken < INTAKE_LIMIT ==> exists|message: Option<Message>|
                {
                    &&& looked(*old(mailbox), old(self)@.look(message), *final(mailbox))
                    &&& (final(self)@, intake) == #[trigger] old(self)@.polling(message)
                },
            old(self)@.taken <= INTAKE_LIMIT ==> final(self)@.taken <= INTAKE_LIMIT,
    {
        if self.taken >= INTAKE_LIMIT {
            return Intake::Idle;
        }
        let message = if self.waits() {
            recv_timeout(mailbox, IDLE_MILLIS)
        } else {
            try_recv(mailbox)
        };
        let ghost found = message;
        let intake = match message {
            Some(message) => self.deliver(message),
            None => Intake::Idle,
        };
        assert((self@, intake) == old(self)@.polling(found));
        intake
    }

    /// Take a message.
    pub fn deliver(&mut self, message: Message) -> (intake: Intake)
        requires
            old(self)@.taken < INTAKE_LIMIT,
        ensures
            (final(self)@, intake) == old(self)@.delivering(message),
    {
        broadcast use {lemma_views_insert, lemma_views_remove};

        self.taken = self.taken + 1;
        match message {
            Message::Create(id) => Intake::Build(id),
            Message::Wake(id) => Intake::Wake(id),
            Message::Remove(id, ack) => {
                self.entries.remove(&id);
                Intake::Acknowledge(ack)
            },
            Message::Shutdown => Intake::Stop,
        }
    }

    /// Take in a circuit that was to be built, if that succeeded.
    pub fn build(&mut self, id: u64, built: Option<Entry<H, P, E>>)
        ensures
            final(self)@ == (match built {
                Some(entry) => WorkerView {
                    entries: old(self)@.entries.insert(id, entry@),
                    ..old(self)@
                },
                None => old(self)@,
            }),
    {
        broadcast use {lemma_views_insert, lemma_views_remove};

        if let Some(entry) = built {
            self.entries.insert(id, entry);
        }
    }

    /// The circuit that lives here under this number.
    pub fn entry(&self, id: u64) -> (entry: Option<&Entry<H, P, E>>)
        ensures
            match entry {
                Some(entry) => self@.entries.contains_key(id) && entry@ == self@.entries[id],
                None => !self@.entries.contains_key(id),
            },
    {
        self.entries.get(&id)
    }

    /// The same, to be changed.
    pub fn entry_mut(&mut self, id: u64) -> (entry: Option<&mut Entry<H, P, E>>)
        ensures
            match entry {
                Some(entry) => {
                    &&& old(self)@.entries.contains_key(id)
                    &&& entry@ == old(self)@.entries[id]
                    &&& final(self)@ == (WorkerView {
                        entries: old(self)@.entries.insert(id, final(entry)@),
                        ..old(self)@
                    })
                },
                None => {
                    &&& !old(self)@.entries.contains_key(id)
                    &&& final(self)@ == old(self)@
                },
            },
    {
        broadcast use {lemma_views_insert, lemma_views_remove};

        match self.entries.entry(id) {
            hash_map::Entry::Occupied(occupied) => Some(occupied.into_mut()),
            hash_map::Entry::Vacant(_) => None,
        }
    }

    /// A circuit has a command waiting. `stopped` says whether it has been stopped, and `now` is
    /// the time on the worker's clock.
    pub fn wake(&mut self, id: u64, stopped: bool, now: u128)
        ensures
            final(self)@ == old(self)@.waking(id, stopped, now),
    {
        broadcast use {lemma_views_insert, lemma_views_remove};

        if stopped {
            self.entries.remove(&id);
            return;
        }
        let waiting = match self.entry_mut(id) {
            Some(entry) => if entry.queued.is_none() {
                entry.queued = Some(now);
                true
            } else {
                false
            },
            None => false,
        };
        if waiting {
            self.ready.push_back(id);
        }
    }

    /// Take the first in line. If it still lives here it is its turn, and the time it has waited
    /// is counted.
    pub fn next(&mut self, now: u128, counters: &mut Counters) -> (id: Option<u64>)
        ensures
            id == old(self)@.due(),
            final(self)@ == old(self)@.advancing(),
            *final(counters) == (Counters {
                queue_nanos: counted(old(counters).queue_nanos, old(self)@.waited(now)),
                ..*old(counters)
            }),
    {
        let id = match self.ready.pop_front() {
            Some(id) => id,
            None => return None,
        };
        match self.entry_mut(id) {
            Some(entry) => {
                if let Some(since) = entry.queued.take() {
                    counters.count_queue(now.saturating_sub(since));
                }
                Some(id)
            },
            None => None,
        }
    }

    /// A turn is over. `spent` is how long it took, and `now` is the time on the worker's clock.
    pub fn finish(
        &mut self,
        id: u64,
        ended: Ended<E>,
        spent: u128,
        now: u128,
        counters: &mut Counters,
    ) -> (after: After<H, P, E>)
        requires
            old(self)@.entries.contains_key(id),
            old(self)@.entries[id].elapsed + spent <= LONGEST_NANOS,
        ensures
            final(self)@ == old(self)@.finished(id, ended, spent, now),
            follows(old(self)@.ran(id, spent), ended, after),
            *final(counters) == charged(*old(counters), spent, old(self)@.entries[id].stepped),
    {
        broadcast use {lemma_views_insert, lemma_views_remove};

        let mut entry = self.entries.remove(&id).unwrap();
        entry.elapsed = entry.elapsed + spent;
        counters.count_execution(spent);
        if entry.stepped {
            counters.count_step();
        }
        let after = match ended {
            Ended::Returned(Ok(true)) => {
                entry.queued = Some(now);
                self.ready.push_back(id);
                After::Again
            },
            Ended::Returned(Ok(false)) => After::Answer(entry.response.take()),
            Ended::Returned(Err(error)) => return After::Failed(error, entry),
            Ended::Panicked => After::Stop,
        };
        self.entries.insert(id, entry);
        after
    }
}

} // verus!

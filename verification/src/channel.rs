//! The channels of the pool: what is sent through them, and the calls that send and receive.
//!
//! To contracts, the value of a channel's end stands for what was done with that end, and what came
//! of it. So with an end that is unchanged nothing was done.

use crate::command::Command;
use crate::error::Error;
use crossbeam::channel::{Receiver, RecvTimeoutError, Sender};
use std::time::Duration;
use vstd::prelude::*;

verus! {

/// The sending end of a channel of the `crossbeam` crate.
#[verifier::external_type_specification]
#[verifier::external_body]
#[verifier::reject_recursive_types(T)]
pub struct ExSender<T>(crossbeam::channel::Sender<T>);

/// The receiving end of a channel of the `crossbeam` crate.
#[verifier::external_type_specification]
#[verifier::external_body]
#[verifier::reject_recursive_types(T)]
pub struct ExReceiver<T>(crossbeam::channel::Receiver<T>);

/// What a pool tells one of its workers.
pub enum Message {
    /// Build the circuit that is registered under this number.
    Create(u64),
    /// The circuit has a command waiting.
    Wake(u64),
    /// Drop the circuit, then say so on the channel.
    Remove(u64, Sender<()>),
    /// Stop the pool.
    Shutdown,
}

/// What came of waiting for a message.
pub enum Received<T> {
    Message(T),
    TimedOut,
    Disconnected,
}

/// A message that was handed to a mailbox.
pub struct Post {
    pub message: Message,
    /// The mailbox took it: there was still someone to receive it.
    pub taken: bool,
}

/// A look into a mailbox, and the message that was found, if any.
pub enum Look {
    /// A look at what was there.
    Now(Option<Message>),
    /// A look at what was there, or came within so many milliseconds.
    Within(u64, Option<Message>),
}

/// What was handed to this end of a mailbox, oldest first.
pub uninterp spec fn posted(sender: Sender<Message>) -> Seq<Post>;

/// The mailbox was made without a limit on what it holds, so that sending to it never waits.
pub uninterp spec fn never_full(sender: Sender<Message>) -> bool;

/// The looks that were had into this end of a mailbox, oldest first.
pub uninterp spec fn looks(mailbox: Receiver<Message>) -> Seq<Look>;

/// The looks that were had for a circuit's commands, oldest first, with the commands that were
/// found.
pub uninterp spec fn asked(commands: Receiver<Command>) -> Seq<Option<Command>>;

/// The two are ends of one channel.
pub uninterp spec fn paired(sender: Sender<Message>, receiver: Receiver<Message>) -> bool;

/// The two are ends of one channel of commands.
pub uninterp spec fn linked(sender: Sender<Command>, commands: Receiver<Command>) -> bool;

/// The channel is still the one it was before, and one look was had for a command.
pub open spec fn asked_once(
    before: Receiver<Command>,
    command: Option<Command>,
    after: Receiver<Command>,
) -> bool {
    &&& asked(after) == asked(before).push(command)
    &&& forall|sender: Sender<Command>| linked(sender, after) == linked(sender, before)
}

/// The mailbox is still the one it was before, and one look was had into it.
pub open spec fn looked(before: Receiver<Message>, look: Look, after: Receiver<Message>) -> bool {
    &&& looks(after) == looks(before).push(look)
    &&& forall|sender: Sender<Message>| paired(sender, after) == paired(sender, before)
}

/// Calls `crossbeam::channel::unbounded`.
///
/// Claimed of it: it returns the two ends of one new channel, which holds any number of messages,
/// and through which none has gone.
#[verifier::external_body]
pub(crate) fn unbounded() -> (ends: (Sender<Message>, Receiver<Message>))
    ensures
        posted(ends.0) == Seq::<Post>::empty(),
        looks(ends.1) == Seq::<Look>::empty(),
        never_full(ends.0),
        paired(ends.0, ends.1),
{
    crossbeam::channel::unbounded()
}

/// Calls `crossbeam::channel::Sender::send`, and says whether the channel took the message.
///
/// Claimed of it: the message is handed to the channel behind those that were handed to it before,
/// the result says whether it was taken, and the channel stays the one it was. It is taken if the
/// receiving end still exists; of when that is so nothing is claimed. On a channel with a limit the
/// call may wait, so such channels are left out.
#[verifier::external_body]
pub(crate) fn send(sender: &mut Sender<Message>, message: Message) -> (taken: bool)
    requires
        never_full(*old(sender)),
    ensures
        posted(*final(sender)) == posted(*old(sender)).push(Post { message, taken }),
        never_full(*final(sender)),
        forall|receiver: Receiver<Message>|
            paired(*final(sender), receiver) == paired(*old(sender), receiver),
{
    sender.send(message).is_ok()
}

/// Calls `crossbeam::channel::Receiver::try_recv` on a mailbox, for the message if there is one.
///
/// Claimed of it: it is one look at what is there, by which the message that is returned, and no
/// other, is taken from the channel, which stays the one it was. Whether one is returned, and
/// which, depends on what other threads have sent; of that nothing is claimed.
#[verifier::external_body]
pub(crate) fn try_recv(mailbox: &mut Receiver<Message>) -> (message: Option<Message>)
    ensures
        looks(*final(mailbox)) == looks(*old(mailbox)).push(Look::Now(message)),
        forall|sender: Sender<Message>|
            paired(sender, *final(mailbox)) == paired(sender, *old(mailbox)),
{
    mailbox.try_recv().ok()
}

/// Calls `crossbeam::channel::Receiver::try_recv` on the channel of a circuit's commands, for the
/// command if there is one.
///
/// Claimed of it: it is one look, by which the command that is returned, and no other, is taken
/// from the channel, which stays the one it was. Whether one is returned, and which, depends on
/// what other threads have sent; of that nothing is claimed.
#[verifier::external_body]
pub(crate) fn try_recv_command(commands: &mut Receiver<Command>) -> (command: Option<Command>)
    ensures
        asked(*final(commands)) == asked(*old(commands)).push(command),
        forall|sender: Sender<Command>|
            linked(sender, *final(commands)) == linked(sender, *old(commands)),
{
    commands.try_recv().ok()
}

/// Calls `crossbeam::channel::Receiver::recv_timeout` on a mailbox, with a time of so many
/// milliseconds, for the message if one came.
///
/// Claimed of it: it is one look, for that long, by which the message that is returned, and no
/// other, is taken from the channel, which stays the one it was. Whether one is returned, and
/// which, depends on what other threads send meanwhile; of that nothing is claimed. A longer time
/// than a second is left out: where the clock cannot express its end, the call waits for as long
/// as it takes.
#[verifier::external_body]
pub(crate) fn recv_timeout(mailbox: &mut Receiver<Message>, millis: u64) -> (message: Option<
    Message,
>)
    requires
        millis <= 1000,
    ensures
        looks(*final(mailbox)) == looks(*old(mailbox)).push(Look::Within(millis, message)),
        forall|sender: Sender<Message>|
            paired(sender, *final(mailbox)) == paired(sender, *old(mailbox)),
{
    mailbox.recv_timeout(Duration::from_millis(millis)).ok()
}

/// The channel on which a new circuit is waited for, and the waits that were had on it, oldest
/// first: for how many milliseconds, and what came of each.
#[verifier::reject_recursive_types(T)]
#[verifier::reject_recursive_types(E)]
pub struct Pending<T, E> {
    end: Receiver<Result<T, Error<E>>>,
    waits: Ghost<Seq<(u64, Received<Result<T, Error<E>>>)>>,
}

impl<T, E> Pending<T, E> {
    /// The waits that were had so far, oldest first.
    pub closed spec fn waits(&self) -> Seq<(u64, Received<Result<T, Error<E>>>)> {
        self.waits@
    }

    /// A circuit that nobody has waited for yet, and of which this channel will tell.
    pub fn new(end: Receiver<Result<T, Error<E>>>) -> (pending: Self)
        ensures
            pending.waits() == Seq::<(u64, Received<Result<T, Error<E>>>)>::empty(),
    {
        Pending { end, waits: Ghost(Seq::empty()) }
    }

    /// Calls `crossbeam::channel::Receiver::recv_timeout`, with a time of so many milliseconds.
    ///
    /// Claimed of it: it is one wait, for that long, of which the result says what came. What that
    /// is depends on what other threads send meanwhile; of that nothing is claimed. A longer time
    /// than a second is left out, as for mailboxes.
    #[verifier::external_body]
    pub(crate) fn wait(&mut self, millis: u64) -> (received: Received<Result<T, Error<E>>>)
        requires
            millis <= 1000,
        ensures
            final(self).waits() == old(self).waits().push((millis, received)),
    {
        match self.end.recv_timeout(Duration::from_millis(millis)) {
            Ok(message) => Received::Message(message),
            Err(RecvTimeoutError::Timeout) => Received::TimedOut,
            Err(RecvTimeoutError::Disconnected) => Received::Disconnected,
        }
    }
}

} // verus!

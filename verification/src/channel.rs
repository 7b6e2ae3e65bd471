//! The channels through which the library's parts talk to the threads that
//! do their I/O: the ends of `crossbeam` channels, and what a look at one
//! finds. What comes through a channel depends on other threads, so nothing
//! is stated of what is received, nor of whether a message could be sent.

use vstd::prelude::*;

use crossbeam::channel::{Receiver, Sender};

verus! {

#[verifier::external_type_specification]
#[verifier::external_body]
#[verifier::reject_recursive_types(T)]
pub struct ExReceiver<T>(Receiver<T>);

#[verifier::external_type_specification]
#[verifier::external_body]
#[verifier::reject_recursive_types(T)]
pub struct ExSender<T>(Sender<T>);

/// What a look at a channel found.
pub enum Polled<T> {
    /// The message that was waiting first.
    Message(T),
    /// Nothing was waiting.
    Empty,
    /// Nothing was waiting and the sending side is gone.
    Disconnected,
}

/// A channel that holds at most `capacity` messages
/// (`crossbeam::channel::bounded`). The two ends are opaque.
#[verifier::external_body]
pub(crate) fn bounded<T>(capacity: usize) -> (Sender<T>, Receiver<T>)
    requires
        0 < capacity <= 4096,
{
    crossbeam::channel::bounded(capacity)
}

/// Takes the message waiting first in `receiver`, without blocking
/// (`crossbeam::channel::Receiver::try_recv`).
#[verifier::external_body]
pub(crate) fn poll<T>(receiver: &Receiver<T>) -> Polled<T> {
    match receiver.try_recv() {
        Ok(message) => Polled::Message(message),
        Err(crossbeam::channel::TryRecvError::Empty) => Polled::Empty,
        Err(crossbeam::channel::TryRecvError::Disconnected) => Polled::Disconnected,
    }
}

/// Hands `message` to the receiving side without blocking
/// (`crossbeam::channel::Sender::try_send`): false when the channel is full
/// or its receiving side is gone.
#[verifier::external_body]
pub(crate) fn offer<T>(sender: &Sender<T>, message: T) -> bool {
    sender.try_send(message).is_ok()
}

/// Hands `message` to the receiving side, waiting while the channel is full
/// (`crossbeam::channel::Sender::send`): false when its receiving side is
/// gone.
#[verifier::external_body]
pub(crate) fn send<T>(sender: &Sender<T>, message: T) -> bool {
    sender.send(message).is_ok()
}

/// The sending end of a channel, with the messages offered through it so far,
/// accepted or not.
#[verifier::reject_recursive_types(T)]
pub struct LoggedSender<T> {
    sender: Sender<T>,
    offered: Ghost<Seq<T>>,
}

impl<T> LoggedSender<T> {
    /// The messages offered so far, oldest first.
    pub closed spec fn offered(&self) -> Seq<T> {
        self.offered@
    }

    /// `sender`, nothing offered through it yet.
    pub fn new(sender: Sender<T>) -> (r: Self)
        ensures
            r.offered() == Seq::<T>::empty(),
    {
        LoggedSender { sender, offered: Ghost(Seq::empty()) }
    }

    /// Offers `message` to the receiving side without blocking (see
    /// `offer`): returns whether it was accepted; it counts as offered
    /// either way.
    pub fn offer(&mut self, message: T) -> (accepted: bool)
        ensures
            final(self).offered() == old(self).offered().push(message),
    {
        let ghost sent = message;
        let accepted = offer(&self.sender, message);
        self.offered = Ghost(self.offered@.push(sent));
        accepted
    }
}

} // verus!

//! The producing end of the status channel.
//!
//! The channel is one of `crossbeam_channel`: many producers, one consumer.
//! It is shared between threads, so nothing is claimed of what it holds at
//! any moment; the contracts below say only what a sender learns from its
//! own call. A sender never waits for the channel, of whatever capacity it
//! is.

use vstd::prelude::*;
use crossbeam_channel::{Sender, TrySendError};
use crate::errors::XcpError;
use crate::operations::StatusUpdate;

verus! {

/// `crossbeam_channel::Sender`, taken as opaque.
#[verifier::external_type_specification]
#[verifier::external_body]
#[verifier::reject_recursive_types(T)]
pub struct ExSender<T>(Sender<T>);

/// `crossbeam_channel::TrySendError`, taken as opaque: it hands back the
/// message that could not be sent.
#[verifier::external_type_specification]
#[verifier::external_body]
#[verifier::reject_recursive_types(T)]
pub struct ExTrySendError<T>(TrySendError<T>);

/// `Sender::try_send` puts a message into the channel at once, or hands it
/// back at once: when every receiver is gone, and when the channel has a
/// capacity and is full. It waits on no channel. Which of the two happens
/// depends on the other threads, so nothing is claimed of the result.
pub assume_specification<T>[ Sender::<T>::try_send ](sender: &Sender<T>, msg: T) -> (r: Result<
    (),
    TrySendError<T>,
>);

/// `Sender::clone` makes one more producing end of the same channel: the
/// copy refers to the very channel that the sender refers to, and is equal
/// to the sender.
pub assume_specification<T>[ <Sender<T> as Clone>::clone ](sender: &Sender<T>) -> (copy: Sender<T>)
    ensures
        copy == *sender,
;

/// What a send amounts to for the sender: a message that could not be
/// delivered is a broken channel.
pub open spec fn delivery(delivered: bool) -> Result<(), XcpError> {
    if delivered {
        Ok(())
    } else {
        Err(XcpError::Channel)
    }
}

/// Turns the outcome of a send into the caller's result.
pub fn delivered_or_broken(delivered: bool) -> (r: Result<(), XcpError>)
    ensures
        r == delivery(delivered),
{
    if delivered {
        Ok(())
    } else {
        Err(XcpError::Channel)
    }
}

/// What a sender has put into the channel after one more send: the update
/// is added at the end where the send succeeded, and nothing changes where
/// it did not.
pub open spec fn after_send(
    handed: Seq<StatusUpdate>,
    update: StatusUpdate,
    delivered: bool,
) -> Seq<StatusUpdate> {
    if delivered {
        handed.push(update)
    } else {
        handed
    }
}

/// `after` is `before` with one more update at its end.
pub open spec fn grew_by_one(before: Seq<StatusUpdate>, after: Seq<StatusUpdate>) -> bool {
    after.len() == before.len() + 1 && after.drop_last() == before
}

/// The producing end of the status channel. Every worker holds one of its
/// own; the channel closes for the consumer when the last of them is
/// dropped.
pub struct StatSender {
    chan: Sender<StatusUpdate>,
    handed: Ghost<Seq<StatusUpdate>>,
}

impl StatSender {
    /// The channel end that this sender writes to.
    pub closed spec fn end(self) -> Sender<StatusUpdate> {
        self.chan
    }

    /// The updates that this sender has put into the channel, oldest first:
    /// those of its sends that succeeded.
    pub closed spec fn handed(self) -> Seq<StatusUpdate> {
        self.handed@
    }

    /// Wraps the producing end of a channel.
    pub fn new(chan: Sender<StatusUpdate>) -> (sender: StatSender)
        ensures
            sender.end() == chan,
            sender.handed() == Seq::<StatusUpdate>::empty(),
    {
        StatSender { chan, handed: Ghost(Seq::empty()) }
    }

    /// Sends one update, and never waits to do so. It fails, with
    /// [`XcpError::Channel`], when the channel does not take the update: on
    /// an unbounded channel only when the consumer is gone, on a channel
    /// with a capacity also when it is full.
    ///
    /// Whether the send succeeds is for the channel to say. Where it does,
    /// this update is the latest that the sender has put into the channel;
    /// where it does not, the channel has handed the update back and the
    /// sender has put in no more than before.
    pub fn send(&mut self, update: StatusUpdate) -> (r: Result<(), XcpError>)
        ensures
            r == delivery(r is Ok),
            final(self).end() == old(self).end(),
            final(self).handed() == after_send(old(self).handed(), update, r is Ok),
    {
        let ghost sent = update;
        match self.chan.try_send(update) {
            Ok(_) => {
                self.handed = Ghost(self.handed@.push(sent));
                delivered_or_broken(true)
            },
            Err(_) => delivered_or_broken(false),
        }
    }
}

impl Clone for StatSender {
    /// One more producing end of the same channel, for one more worker. It
    /// has put nothing into the channel yet.
    fn clone(&self) -> (copy: StatSender)
        ensures
            copy.end() == self.end(),
            copy.handed() == Seq::<StatusUpdate>::empty(),
    {
        StatSender { chan: self.chan.clone(), handed: Ghost(Seq::empty()) }
    }
}

} // verus!

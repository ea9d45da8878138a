//! The consumer's side of the status channel.
//!
//! The consumer receives until every producer is gone, forwards progress to
//! whoever displays it, and gives up at the first error it sees, leaving
//! whatever is still queued behind it unread.

use vstd::prelude::*;
use crate::errors::XcpError;
use crate::operations::StatusUpdate;
use crate::transfer::{announced_total, copied_total};

verus! {

/// What the consumer does about one receive.
#[derive(Debug, Clone, PartialEq, Eq)]
pub enum Control {
    /// Report so many more bytes as copied, and go on.
    Increment(u64),
    /// Raise the expected total by so many bytes, and go on.
    IncrementTotal(u64),
    /// Stop at once: the run has failed with this error.
    Abort(XcpError),
    /// Stop: every producer is gone and nothing is left to read.
    Finish,
}

/// The meaning of one receive: of a message, or of `None`, which says that
/// the channel is empty and closed.
pub open spec fn reaction(message: Option<StatusUpdate>) -> Control {
    match message {
        Some(StatusUpdate::Copied(n)) => Control::Increment(n),
        Some(StatusUpdate::Size(n)) => Control::IncrementTotal(n),
        Some(StatusUpdate::Error(e)) => Control::Abort(e),
        None => Control::Finish,
    }
}

/// Decides what one receive means for the run.
pub fn on_message(message: Option<StatusUpdate>) -> (control: Control)
    ensures
        control == reaction(message),
{
    match message {
        Some(StatusUpdate::Copied(n)) => Control::Increment(n),
        Some(StatusUpdate::Size(n)) => Control::IncrementTotal(n),
        Some(StatusUpdate::Error(e)) => Control::Abort(e),
        None => Control::Finish,
    }
}

/// What a consumer has made of a run of messages.
#[derive(Debug, Clone, PartialEq, Eq)]
pub struct Summary {
    /// The number of messages read before the consumer stopped, the error
    /// that stopped it not counted.
    pub read: usize,
    /// The bytes reported as copied by the messages read.
    pub copied: u128,
    /// The bytes announced by the messages read.
    pub announced: u128,
    /// The error that stopped the consumer, if one did.
    pub failure: Option<XcpError>,
}

/// The consumer stops reading `messages` after `read` of them: none of
/// these is an error, and the next one, if there is one, is.
pub open spec fn stops_after(messages: Seq<StatusUpdate>, read: int) -> bool {
    &&& 0 <= read <= messages.len()
    &&& forall|k: int| 0 <= k < read ==> !((#[trigger] messages[k]) is Error)
    &&& read < messages.len() ==> messages[read] is Error
}

/// `summary` is what the consumer makes of `messages`, taken in order: it
/// adds up what it reads until the first error, which it returns, and reads
/// nothing after it.
pub open spec fn summarizes(summary: Summary, messages: Seq<StatusUpdate>) -> bool {
    &&& stops_after(messages, summary.read as int)
    &&& summary.copied == copied_total(messages.take(summary.read as int))
    &&& summary.announced == announced_total(messages.take(summary.read as int))
    &&& summary.failure == (if summary.read < messages.len() {
        Some(messages[summary.read as int]->Error_0)
    } else {
        None
    })
}

/// The consumer stops at one place only.
pub proof fn stop_is_unique(messages: Seq<StatusUpdate>, a: int, b: int)
    requires
        stops_after(messages, a),
        stops_after(messages, b),
    ensures
        a == b,
{
}

/// Runs the consumer over messages that have all arrived: forwards nothing,
/// but adds up what a display would have been told, and stops at the first
/// error.
pub fn replay(messages: &Vec<StatusUpdate>) -> (summary: Summary)
    ensures
        summarizes(summary, messages@),
{
    let mut copied: u128 = 0;
    let mut announced: u128 = 0;
    let mut i: usize = 0;
    while i < messages.len()
        invariant
            i <= messages.len(),
            forall|k: int| 0 <= k < i ==> !((#[trigger] messages@[k]) is Error),
            copied == copied_total(messages@.take(i as int)),
            announced == announced_total(messages@.take(i as int)),
            copied <= i * 0xffff_ffff_ffff_ffff,
            announced <= i * 0xffff_ffff_ffff_ffff,
        decreases messages.len() - i,
    {
        proof {
            let next = messages@.take(i + 1);
            assert(next.drop_last() =~= messages@.take(i as int));
            assert((i + 1) * 0xffff_ffff_ffff_ffff == i * 0xffff_ffff_ffff_ffff
                + 0xffff_ffff_ffff_ffff) by (nonlinear_arith);
            assert(i * 0xffff_ffff_ffff_ffff <= 0xffff_ffff_ffff_ffff * 0xffff_ffff_ffff_ffff)
                by (nonlinear_arith)
                requires
                    i <= 0xffff_ffff_ffff_ffff,
            ;
        }
        match &messages[i] {
            StatusUpdate::Copied(n) => {
                copied = copied + (*n as u128);
            },
            StatusUpdate::Size(n) => {
                announced = announced + (*n as u128);
            },
            StatusUpdate::Error(e) => {
                return Summary { read: i, copied, announced, failure: Some(e.duplicate()) };
            },
        }
        i += 1;
    }
    Summary { read: i, copied, announced, failure: None }
}

} // verus!

//! The copy of one file's content, step by step.
//!
//! A [`FileCopy`] does no I/O. It tells its worker what to do next, takes
//! what the worker reports back, and makes the status updates that tell of
//! it: [`FileCopy::wrote`] and [`FileCopy::reflinked`] hand them out,
//! [`FileCopy::report_write`] and [`FileCopy::report_reflink`] send them.

use vstd::prelude::*;
use vstd::string::*;
use crate::channel::{after_send, delivery, StatSender};
use crate::errors::XcpError;
use crate::operations::StatusUpdate;

verus! {

/// What the worker of a file copy does next.
#[derive(Debug, Clone, Copy, PartialEq, Eq, Structural)]
pub enum Step {
    /// Try to clone the file inside the filesystem, without moving bytes.
    Reflink,
    /// Move this many bytes from the source to the destination.
    Copy(u64),
    /// All bytes are in place: finish the file.
    Finish,
}

/// How the try at cloning a file ended.
#[derive(Debug, Clone, Copy, PartialEq, Eq, Structural)]
pub enum CloneOutcome {
    /// The file was cloned: the destination shares the source's blocks.
    Cloned,
    /// The filesystems cannot clone this file.
    Unsupported,
    /// The clone was tried and failed.
    Failed,
}

/// The mathematical value of a [`FileCopy`].
pub struct CopyState {
    /// The length of the file.
    pub size: nat,
    /// The number of bytes in place at the destination.
    pub copied: nat,
    /// The most that one buffered step moves.
    pub block_size: nat,
    /// Whether the clone is still to be tried.
    pub reflink_pending: bool,
    /// The updates handed out so far, oldest first.
    pub sent: Seq<StatusUpdate>,
}

/// The bytes that the `Copied` updates of `log` add up to.
pub open spec fn copied_total(log: Seq<StatusUpdate>) -> nat
    decreases log.len(),
{
    if log.len() == 0 {
        0
    } else {
        copied_total(log.drop_last()) + match log.last() {
            StatusUpdate::Copied(n) => n as nat,
            _ => 0,
        }
    }
}

/// The bytes that the `Size` updates of `log` add up to.
pub open spec fn announced_total(log: Seq<StatusUpdate>) -> nat
    decreases log.len(),
{
    if log.len() == 0 {
        0
    } else {
        announced_total(log.drop_last()) + match log.last() {
            StatusUpdate::Size(n) => n as nat,
            _ => 0,
        }
    }
}

/// The number of `Size` updates in `log`.
pub open spec fn announcements(log: Seq<StatusUpdate>) -> nat
    decreases log.len(),
{
    if log.len() == 0 {
        0
    } else {
        announcements(log.drop_last()) + if log.last() is Size {
            1nat
        } else {
            0nat
        }
    }
}

impl CopyState {
    /// The state of a file copy that has just begun.
    pub open spec fn begun(size: u64, block_size: u64, reflink: bool) -> CopyState {
        CopyState {
            size: size as nat,
            copied: 0,
            block_size: block_size as nat,
            reflink_pending: reflink,
            sent: seq![StatusUpdate::Size(size)],
        }
    }

    /// What holds of every file copy: it never counts more bytes than the
    /// file has; its first update announces the file's length, every later
    /// one reports progress, and the progress reported is the count.
    pub open spec fn valid(self) -> bool {
        &&& self.copied <= self.size <= u64::MAX
        &&& 1 <= self.block_size <= u64::MAX
        &&& self.reflink_pending ==> self.copied == 0
        &&& self.sent.len() >= 1
        &&& self.sent[0] == StatusUpdate::Size(self.size as u64)
        &&& forall|i: int| 1 <= i < self.sent.len() ==> (#[trigger] self.sent[i]) is Copied
        &&& copied_total(self.sent) == self.copied
    }

    /// All bytes are in place.
    pub open spec fn complete(self) -> bool {
        !self.reflink_pending && self.copied == self.size
    }

    /// The bytes still to be moved.
    pub open spec fn remaining(self) -> nat {
        (self.size - self.copied) as nat
    }

    /// What to do next: the clone first where it is to be tried, then block
    /// after block, the last one as short as what is left.
    pub open spec fn next_step(self) -> Step {
        if self.reflink_pending {
            Step::Reflink
        } else if self.copied < self.size {
            if self.remaining() < self.block_size {
                Step::Copy(self.remaining() as u64)
            } else {
                Step::Copy(self.block_size as u64)
            }
        } else {
            Step::Finish
        }
    }

    /// The state after the clone was tried: a clone that worked has put
    /// every byte in place at once, one that did not has changed nothing.
    pub open spec fn after_reflink(self, cloned: bool) -> CopyState {
        if !self.reflink_pending {
            self
        } else if cloned {
            CopyState {
                copied: self.size,
                reflink_pending: false,
                sent: self.sent.push(StatusUpdate::Copied(self.size as u64)),
                ..self
            }
        } else {
            CopyState { reflink_pending: false, ..self }
        }
    }

    /// Whether a report of `written` more bytes can be true: some bytes, no
    /// more than are left, and not while the clone is still to be tried.
    pub open spec fn accepts(self, written: u64) -> bool {
        !self.reflink_pending && 0 < written <= self.remaining()
    }

    /// The state after `written` more bytes were moved.
    pub open spec fn after_write(self, written: u64) -> CopyState {
        CopyState {
            copied: (self.copied + written) as nat,
            sent: self.sent.push(StatusUpdate::Copied(written)),
            ..self
        }
    }
}

/// The failure of a copy step that moved no bytes, or more than were left.
pub open spec fn is_miscount(e: XcpError) -> bool {
    e matches XcpError::Io(m) && m@ == "Unexpected number of bytes copied."@
}

/// The copy of one file's content in progress.
pub struct FileCopy {
    size: u64,
    copied: u64,
    block_size: u64,
    reflink_pending: bool,
    sent: Ghost<Seq<StatusUpdate>>,
}

impl View for FileCopy {
    type V = CopyState;

    closed spec fn view(&self) -> CopyState {
        CopyState {
            size: self.size as nat,
            copied: self.copied as nat,
            block_size: self.block_size as nat,
            reflink_pending: self.reflink_pending,
            sent: self.sent@,
        }
    }
}

proof fn lemma_totals_push(log: Seq<StatusUpdate>, update: StatusUpdate)
    ensures
        copied_total(log.push(update)) == copied_total(log) + match update {
            StatusUpdate::Copied(n) => n as nat,
            _ => 0,
        },
        announced_total(log.push(update)) == announced_total(log) + match update {
            StatusUpdate::Size(n) => n as nat,
            _ => 0,
        },
        announcements(log.push(update)) == announcements(log) + if update is Size {
            1nat
        } else {
            0nat
        },
{
    assert(log.push(update).drop_last() =~= log);
}

proof fn lemma_progress_only(log: Seq<StatusUpdate>)
    requires
        forall|i: int| 0 <= i < log.len() ==> (#[trigger] log[i]) is Copied,
    ensures
        announced_total(log) == 0,
        announcements(log) == 0,
    decreases log.len(),
{
    if log.len() > 0 {
        lemma_progress_only(log.drop_last());
    }
}

proof fn lemma_one_announcement(log: Seq<StatusUpdate>)
    requires
        log.len() >= 1,
        log[0] is Size,
        forall|i: int| 1 <= i < log.len() ==> (#[trigger] log[i]) is Copied,
    ensures
        announcements(log) == 1,
        announced_total(log) == log[0]->Size_0,
    decreases log.len(),
{
    if log.len() == 1 {
        lemma_progress_only(log.drop_last());
    } else {
        lemma_one_announcement(log.drop_last());
    }
}

/// A file is announced once, before any progress on it, and the progress
/// reported never exceeds what was announced.
pub proof fn progress_stays_within_size(state: CopyState)
    requires
        state.valid(),
    ensures
        state.sent[0] == StatusUpdate::Size(state.size as u64),
        announcements(state.sent) == 1,
        announced_total(state.sent) == state.size,
        copied_total(state.sent) <= announced_total(state.sent),
{
    lemma_one_announcement(state.sent);
}

/// When a file copy is complete, the bytes of its `Copied` updates add up
/// to the length given by its one `Size` update.
pub proof fn progress_adds_up_to_size(state: CopyState)
    requires
        state.valid(),
        state.complete(),
    ensures
        announcements(state.sent) == 1,
        copied_total(state.sent) == announced_total(state.sent),
        announced_total(state.sent) == state.size,
{
    lemma_one_announcement(state.sent);
}

/// A file copy stays valid, whatever its worker reports.
pub proof fn steps_keep_validity(state: CopyState, cloned: bool, written: u64)
    requires
        state.valid(),
    ensures
        state.after_reflink(cloned).valid(),
        state.accepts(written) ==> state.after_write(written).valid(),
{
    lemma_totals_push(state.sent, StatusUpdate::Copied(state.size as u64));
    lemma_totals_push(state.sent, StatusUpdate::Copied(written));
}

impl FileCopy {
    #[verifier::type_invariant]
    spec fn inv(self) -> bool {
        self@.valid()
    }

    /// Begins the copy of a file of `size` bytes in blocks of `block_size`,
    /// with or without a first try at cloning it. The update returned
    /// announces the file and is the first to send.
    pub(crate) fn start(size: u64, block_size: u64, reflink: bool) -> (r: (FileCopy, StatusUpdate))
        requires
            block_size >= 1,
        ensures
            r.0@ == CopyState::begun(size, block_size, reflink),
            r.0@.valid(),
            r.1 == StatusUpdate::Size(size),
    {
        let ghost sent = seq![StatusUpdate::Size(size)];
        proof {
            lemma_totals_push(Seq::<StatusUpdate>::empty(), StatusUpdate::Size(size));
        }
        (
            FileCopy { size, copied: 0, block_size, reflink_pending: reflink, sent: Ghost(sent) },
            StatusUpdate::Size(size),
        )
    }

    /// The length of the file.
    pub fn size(&self) -> (n: u64)
        ensures
            n == self@.size,
    {
        self.size
    }

    /// The number of bytes in place so far.
    pub fn copied(&self) -> (n: u64)
        ensures
            n == self@.copied,
            n <= self@.size,
    {
        proof {
            use_type_invariant(self);
        }
        self.copied
    }

    /// Whether every byte is in place.
    pub fn is_complete(&self) -> (b: bool)
        ensures
            b == self@.complete(),
    {
        !self.reflink_pending && self.copied == self.size
    }

    /// What the worker does next.
    pub fn next_step(&self) -> (step: Step)
        ensures
            step == self@.next_step(),
            self@.valid(),
            step matches Step::Copy(n) ==> self@.accepts(n),
    {
        proof {
            use_type_invariant(self);
        }
        if self.reflink_pending {
            Step::Reflink
        } else if self.copied < self.size {
            let left = self.size - self.copied;
            if left < self.block_size {
                Step::Copy(left)
            } else {
                Step::Copy(self.block_size)
            }
        } else {
            Step::Finish
        }
    }

    /// Takes the outcome of the clone. A clone that worked completes the
    /// file, and the update returned reports all of its bytes at once. A
    /// clone that is unsupported or that failed is no failure of the copy:
    /// the file is then copied block by block.
    pub fn reflinked(&mut self, outcome: CloneOutcome) -> (update: Option<StatusUpdate>)
        ensures
            final(self)@ == old(self)@.after_reflink(outcome == CloneOutcome::Cloned),
            final(self)@.valid(),
            update == (if old(self)@.reflink_pending && outcome == CloneOutcome::Cloned {
                Some(StatusUpdate::Copied(old(self)@.size as u64))
            } else {
                None
            }),
    {
        let cloned = outcome == CloneOutcome::Cloned;
        proof {
            use_type_invariant(&*self);
            steps_keep_validity(self@, cloned, 0);
        }
        if !self.reflink_pending {
            None
        } else if cloned {
            *self = FileCopy {
                size: self.size,
                copied: self.size,
                block_size: self.block_size,
                reflink_pending: false,
                sent: Ghost(self.sent@.push(StatusUpdate::Copied(self.size))),
            };
            Some(StatusUpdate::Copied(self.size))
        } else {
            *self = FileCopy {
                size: self.size,
                copied: self.copied,
                block_size: self.block_size,
                reflink_pending: false,
                sent: self.sent,
            };
            None
        }
    }

    /// Takes the report that `written` more bytes were moved, and returns
    /// the update that tells of them. A report that cannot be true, of no
    /// bytes or of more than were left, is refused and changes nothing.
    pub fn wrote(&mut self, written: u64) -> (r: Result<StatusUpdate, XcpError>)
        ensures
            final(self)@.valid(),
            match r {
                Ok(update) => {
                    &&& old(self)@.accepts(written)
                    &&& update == StatusUpdate::Copied(written)
                    &&& final(self)@ == old(self)@.after_write(written)
                },
                Err(e) => {
                    &&& !old(self)@.accepts(written)
                    &&& is_miscount(e)
                    &&& final(self)@ == old(self)@
                },
            },
    {
        proof {
            use_type_invariant(&*self);
            steps_keep_validity(self@, false, written);
        }
        if self.reflink_pending || written == 0 || written > self.size - self.copied {
            Err(XcpError::Io(String::from_str("Unexpected number of bytes copied.")))
        } else {
            *self = FileCopy {
                size: self.size,
                copied: self.copied + written,
                block_size: self.block_size,
                reflink_pending: false,
                sent: Ghost(self.sent@.push(StatusUpdate::Copied(written))),
            };
            Ok(StatusUpdate::Copied(written))
        }
    }

    /// Takes the outcome of the clone, as [`FileCopy::reflinked`] does, and
    /// sends the update that tells of it, if there is one. Only the channel
    /// can make this fail.
    pub fn report_reflink(&mut self, outcome: CloneOutcome, stats: &mut StatSender) -> (r: Result<
        (),
        XcpError,
    >)
        ensures
            final(self)@ == old(self)@.after_reflink(outcome == CloneOutcome::Cloned),
            final(self)@.valid(),
            r == delivery(r is Ok),
            !(old(self)@.reflink_pending && outcome == CloneOutcome::Cloned) ==> r is Ok,
            final(stats).end() == old(stats).end(),
            final(stats).handed() == (if old(self)@.reflink_pending && outcome
                == CloneOutcome::Cloned {
                after_send(
                    old(stats).handed(),
                    StatusUpdate::Copied(old(self)@.size as u64),
                    r is Ok,
                )
            } else {
                old(stats).handed()
            }),
    {
        match self.reflinked(outcome) {
            Some(update) => stats.send(update),
            None => Ok(()),
        }
    }

    /// Takes the report that `written` more bytes were moved, as
    /// [`FileCopy::wrote`] does, and sends the update that tells of them. A
    /// report that cannot be true is refused and nothing is sent; a report
    /// that is taken fails only where the channel does.
    pub fn report_write(&mut self, written: u64, stats: &mut StatSender) -> (r: Result<
        (),
        XcpError,
    >)
        ensures
            final(self)@.valid(),
            final(stats).end() == old(stats).end(),
            old(self)@.accepts(written) ==> {
                &&& final(self)@ == old(self)@.after_write(written)
                &&& r == delivery(r is Ok)
                &&& final(stats).handed() == after_send(
                    old(stats).handed(),
                    StatusUpdate::Copied(written),
                    r is Ok,
                )
            },
            !old(self)@.accepts(written) ==> {
                &&& final(self)@ == old(self)@
                &&& r is Err
                &&& is_miscount(r->Err_0)
                &&& final(stats).handed() == old(stats).handed()
            },
    {
        match self.wrote(written) {
            Ok(update) => stats.send(update),
            Err(e) => Err(e),
        }
    }
}

} // verus!

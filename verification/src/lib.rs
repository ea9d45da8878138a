//! The engine of a file and directory copier.
//!
//! The crate decides; its caller touches the disk. A caller snapshots each
//! source as an [`planner::Entry`] tree, hands the snapshots to a
//! [`drivers::Driver`], and receives a [`schedule::Schedule`]: the directories
//! to create, in an order that puts every parent before its children, and the
//! files and links to transfer afterwards. Each file transfer is then walked
//! through a [`transfer::FileCopy`], which says how many bytes to move next
//! and reports progress through a [`channel::StatSender`]. The consumer of
//! that channel asks [`control::on_message`] what each message means for the
//! run.
//!
//! Every function is verified against its contract; the few calls into
//! `crossbeam_channel` are the only statements taken on trust.

pub mod channel;
pub mod control;
pub mod drivers;
pub mod errors;
pub mod operations;
pub mod options;
pub mod planner;
pub mod refusals;
pub mod request;
pub mod run;
pub mod schedule;
pub mod transfer;
pub mod tree_laws;

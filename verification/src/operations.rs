//! The units of planned work and the messages that report on them.

use vstd::prelude::*;
use crate::errors::XcpError;

verus! {

/// What one operation does at the destination.
#[derive(Debug, Clone, PartialEq, Eq)]
pub enum OpKind {
    /// Create a directory.
    Directory,
    /// Copy a regular file of `size` bytes.
    File { size: u64 },
    /// Recreate a symbolic link that points at `target`.
    Symlink { target: String },
}

/// One unit of planned work.
#[derive(Debug, Clone, PartialEq, Eq)]
pub struct CopyOperation {
    /// What to do.
    pub kind: OpKind,
    /// Where the item lies in the source tree.
    pub source_path: String,
    /// Where the item goes, as the names that lead to it from the
    /// destination.
    pub relative_path: Vec<String>,
}

/// A message from a worker to the consumer of the status channel.
#[derive(Debug, Clone, PartialEq, Eq)]
pub enum StatusUpdate {
    /// So many more bytes of some file have been written.
    Copied(u64),
    /// A file of so many bytes is about to be copied.
    Size(u64),
    /// An operation failed for good.
    Error(XcpError),
}

/// The mathematical value of an [`OpKind`].
pub enum KindModel {
    Directory,
    File { size: nat },
    Symlink { target: Seq<char> },
}

/// The mathematical value of a [`CopyOperation`].
pub struct OpModel {
    pub kind: KindModel,
    pub source: Seq<char>,
    pub relative: Seq<Seq<char>>,
}

/// The character sequences of a list of names.
pub open spec fn names(path: Seq<String>) -> Seq<Seq<char>> {
    path.map_values(|name: String| name@)
}

/// The values of a list of operations.
pub open spec fn models(ops: Seq<CopyOperation>) -> Seq<OpModel> {
    ops.map_values(|op: CopyOperation| op@)
}

impl View for OpKind {
    type V = KindModel;

    open spec fn view(&self) -> KindModel {
        match *self {
            OpKind::Directory => KindModel::Directory,
            OpKind::File { size } => KindModel::File { size: size as nat },
            OpKind::Symlink { target } => KindModel::Symlink { target: target@ },
        }
    }
}

impl View for CopyOperation {
    type V = OpModel;

    open spec fn view(&self) -> OpModel {
        OpModel {
            kind: self.kind@,
            source: self.source_path@,
            relative: names(self.relative_path@),
        }
    }
}

impl OpKind {
    /// A copy of this kind.
    pub fn duplicate(&self) -> (copy: OpKind)
        ensures
            copy@ == self@,
    {
        match self {
            OpKind::Directory => OpKind::Directory,
            OpKind::File { size } => OpKind::File { size: *size },
            OpKind::Symlink { target } => OpKind::Symlink { target: target.clone() },
        }
    }
}

impl CopyOperation {
    /// A copy of this operation.
    pub fn duplicate(&self) -> (copy: CopyOperation)
        ensures
            copy@ == self@,
    {
        CopyOperation {
            kind: self.kind.duplicate(),
            source_path: self.source_path.clone(),
            relative_path: clone_names(&self.relative_path),
        }
    }

    /// Whether this operation creates a directory.
    pub fn is_directory(&self) -> (b: bool)
        ensures
            b == (self@.kind is Directory),
    {
        match self.kind {
            OpKind::Directory => true,
            _ => false,
        }
    }

    /// The number of bytes this operation moves: the length of a file, and
    /// nothing for a directory or a link.
    pub fn size(&self) -> (n: u64)
        ensures
            n == self@.bytes(),
    {
        match self.kind {
            OpKind::File { size } => size,
            _ => 0,
        }
    }
}

impl OpModel {
    /// The number of bytes the operation moves.
    pub open spec fn bytes(self) -> nat {
        match self.kind {
            KindModel::File { size } => size,
            _ => 0,
        }
    }
}

/// Copies a list of names.
pub fn clone_names(path: &Vec<String>) -> (copy: Vec<String>)
    ensures
        names(copy@) == names(path@),
        copy@.len() == path@.len(),
{
    let mut copy: Vec<String> = Vec::new();
    let mut i: usize = 0;
    while i < path.len()
        invariant
            i <= path.len(),
            copy@.len() == i,
            forall|k: int| 0 <= k < i ==> copy@[k]@ == path@[k]@,
        decreases path.len() - i,
    {
        copy.push(path[i].clone());
        i += 1;
    }
    copy
}

} // verus!

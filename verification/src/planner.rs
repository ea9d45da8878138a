//! The operation planner: from a snapshot of a source tree to the ordered
//! list of operations that rebuild it.

use vstd::prelude::*;
use vstd::string::*;
use crate::errors::XcpError;
use crate::operations::{clone_names, models, names, CopyOperation, KindModel, OpKind, OpModel};

verus! {

/// One item of a source tree, as found on disk.
#[derive(Debug, PartialEq, Eq)]
pub enum Entry {
    /// A regular file of `size` bytes.
    File { size: u64 },
    /// A symbolic link and the text it points at.
    Symlink { target: String },
    /// A directory and what it holds.
    Directory { children: Vec<Child> },
}

/// An item of a directory under its name.
#[derive(Debug, PartialEq, Eq)]
pub struct Child {
    pub name: String,
    pub entry: Entry,
}

/// One source of a copy, as the caller found it.
#[derive(Debug, PartialEq, Eq)]
pub struct Source {
    /// The path the source was named by.
    pub path: String,
    /// The last name of that path.
    pub name: String,
    /// What lies at the path, or `None` where nothing does.
    pub root: Option<Entry>,
    /// Whether the path leads to the destination itself.
    pub is_destination: bool,
}

/// The failure of planning a source that is not there.
pub open spec fn source_missing() -> XcpError {
    XcpError::InvalidSource("Source does not exist.")
}

/// The failure of planning a directory without leave to descend into it.
pub open spec fn recursion_needed() -> XcpError {
    XcpError::InvalidSource("Source is directory and --recursive not specified.")
}

/// The failure of planning a source that is its own destination.
pub open spec fn copy_into_itself() -> XcpError {
    XcpError::InvalidSource("Cannot copy a directory into itself")
}

/// Why `source` cannot be planned, if it cannot: it is missing, or it is a
/// directory and `recursive` is off, or it is the destination. The first of
/// these that holds is the fault.
pub open spec fn source_fault(source: Source, recursive: bool) -> Option<XcpError> {
    match source.root {
        None => Some(source_missing()),
        Some(root) => if root is Directory && !recursive {
            Some(recursion_needed())
        } else if source.is_destination {
            Some(copy_into_itself())
        } else {
            None
        },
    }
}

/// The plan for a source that has no fault, bound for `base`.
pub open spec fn source_ops(source: Source, base: Seq<Seq<char>>) -> Seq<OpModel> {
    entry_ops(source.root.unwrap(), source.path@, base)
}

/// The path of the item `name` inside the directory `parent`.
pub open spec fn child_path(parent: Seq<char>, name: Seq<char>) -> Seq<char> {
    parent + seq!['/'] + name
}

/// The kind of operation that rebuilds `entry` itself.
pub open spec fn kind_of(entry: Entry) -> KindModel {
    match entry {
        Entry::File { size } => KindModel::File { size: size as nat },
        Entry::Symlink { target } => KindModel::Symlink { target: target@ },
        Entry::Directory { .. } => KindModel::Directory,
    }
}

/// The plan for `entry`, found at `source` and bound for `rel`: the
/// operation for the entry itself, then, for a directory, the plans of its
/// children in the order in which the directory lists them.
pub open spec fn entry_ops(entry: Entry, source: Seq<char>, rel: Seq<Seq<char>>) -> Seq<OpModel>
    decreases entry, 0nat,
{
    let own = OpModel { kind: kind_of(entry), source, relative: rel };
    match entry {
        Entry::Directory { children } => seq![own] + children_ops(children@, source, rel),
        _ => seq![own],
    }
}

/// The plans of the items `children` of the directory found at `source` and
/// bound for `rel`, one after the other.
pub open spec fn children_ops(children: Seq<Child>, source: Seq<char>, rel: Seq<Seq<char>>) -> Seq<
    OpModel,
>
    decreases children, 1nat,
{
    if children.len() == 0 {
        Seq::empty()
    } else {
        let last = children.last();
        children_ops(children.drop_last(), source, rel) + entry_ops(
            last.entry,
            child_path(source, last.name@),
            rel.push(last.name@),
        )
    }
}

fn plan_entry(entry: &Entry, source: &String, rel: &Vec<String>, out: &mut Vec<CopyOperation>)
    ensures
        models(final(out)@) == models(old(out)@) + entry_ops(*entry, source@, names(rel@)),
    decreases entry,
{
    let ghost before = models(out@);
    let ghost own = OpModel { kind: kind_of(*entry), source: source@, relative: names(rel@) };
    match entry {
        Entry::File { size } => {
            out.push(
                CopyOperation {
                    kind: OpKind::File { size: *size },
                    source_path: source.clone(),
                    relative_path: clone_names(rel),
                },
            );
        },
        Entry::Symlink { target } => {
            out.push(
                CopyOperation {
                    kind: OpKind::Symlink { target: target.clone() },
                    source_path: source.clone(),
                    relative_path: clone_names(rel),
                },
            );
        },
        Entry::Directory { children } => {
            out.push(
                CopyOperation {
                    kind: OpKind::Directory,
                    source_path: source.clone(),
                    relative_path: clone_names(rel),
                },
            );
            let mut i: usize = 0;
            while i < children.len()
                invariant
                    i <= children.len(),
                    *entry == (Entry::Directory { children: *children }),
                    models(out@) == before + seq![own] + children_ops(
                        children@.take(i as int),
                        source@,
                        names(rel@),
                    ),
                decreases children.len() - i,
            {
                let child = &children[i];
                let mut child_source = source.clone();
                child_source.append("/");
                child_source.append(child.name.as_str());
                let mut child_rel = clone_names(rel);
                child_rel.push(child.name.clone());
                proof {
                    reveal_strlit("/");
                    assert(child_source@ =~= child_path(source@, child.name@));
                    assert(names(child_rel@) =~= names(rel@).push(child.name@));
                    let next = children@.take(i + 1);
                    assert(next.drop_last() =~= children@.take(i as int));
                    assert(decreases_to!(*entry => entry->children));
                }
                plan_entry(&child.entry, &child_source, &child_rel, out);
                i += 1;
            }
            assert(children@.take(children.len() as int) =~= children@);
        },
    }
}

/// Plans the copy of the tree `root`, which lies at `source`, to the place
/// that `base` names below the destination.
///
/// The plan is depth-first and lists every directory before what it holds.
pub fn plan_tree(root: &Entry, source: &String, base: &Vec<String>) -> (ops: Vec<CopyOperation>)
    ensures
        models(ops@) == entry_ops(*root, source@, names(base@)),
{
    let mut ops: Vec<CopyOperation> = Vec::new();
    plan_entry(root, source, base, &mut ops);
    ops
}

/// Checks that `source` can be planned: that it exists, that it is no
/// directory unless `recursive` is on, and that it is not the destination.
pub fn check_source(source: &Source, recursive: bool) -> (r: Result<(), XcpError>)
    ensures
        r == (match source_fault(*source, recursive) {
            Some(e) => Err::<(), XcpError>(e),
            None => Ok(()),
        }),
{
    match &source.root {
        None => Err(XcpError::InvalidSource("Source does not exist.")),
        Some(root) => {
            let is_directory = match root {
                Entry::Directory { .. } => true,
                _ => false,
            };
            if is_directory && !recursive {
                Err(XcpError::InvalidSource("Source is directory and --recursive not specified."))
            } else if source.is_destination {
                Err(XcpError::InvalidSource("Cannot copy a directory into itself"))
            } else {
                Ok(())
            }
        },
    }
}

/// Plans the copy of one source to the place that `base` names below the
/// destination. A source with a fault is refused with that fault, and
/// nothing is planned for it.
pub fn plan_source(source: &Source, recursive: bool, base: &Vec<String>) -> (r: Result<
    Vec<CopyOperation>,
    XcpError,
>)
    ensures
        match source_fault(*source, recursive) {
            Some(e) => r == Err::<Vec<CopyOperation>, XcpError>(e),
            None => r is Ok && models(r.unwrap()@) == source_ops(*source, names(base@)),
        },
{
    match check_source(source, recursive) {
        Err(e) => Err(e),
        Ok(_) => {
            match &source.root {
                Some(root) => Ok(plan_tree(root, &source.path, base)),
                None => Err(XcpError::InvalidSource("Source does not exist.")),
            }
        },
    }
}

} // verus!

//! The requests that are refused, whatever else they hold.
//!
//! A driver that refuses a request returns the fault and no schedule, so a
//! refused request writes nothing.

use vstd::prelude::*;
use crate::drivers::{all_fault, first_fault, one_fault, single_fault, DriverModel};
use crate::planner::{recursion_needed, source_fault, source_missing, Source};
use crate::request::{not_a_directory, same_file, would_clobber, Destination, PathKind};

verus! {

/// The sources before the one at `i` have no fault.
pub open spec fn clean_before(cfg: DriverModel, sources: Seq<Source>, kind: PathKind, i: int) -> bool {
    forall|k: int| 0 <= k < i ==> one_fault(cfg, #[trigger] sources[k], kind) is None
}

/// Several sources can go into a directory, and `dest` is one wherever
/// `sources` are several.
pub open spec fn can_hold(sources: Seq<Source>, dest: Destination) -> bool {
    sources.len() <= 1 || dest.kind == PathKind::Directory
}

/// A source with a fault makes the whole request fail, and the fault
/// reported is that of the first source that has one.
pub proof fn first_fault_wins(cfg: DriverModel, sources: Seq<Source>, dest: Destination, i: int)
    requires
        0 <= i < sources.len(),
        one_fault(cfg, sources[i], dest.kind) is Some,
    ensures
        all_fault(cfg, sources, dest) is Some,
        can_hold(sources, dest) && clean_before(cfg, sources, dest.kind, i) ==> all_fault(
            cfg,
            sources,
            dest,
        ) == one_fault(cfg, sources[i], dest.kind),
{
    lemma_first_fault(cfg, sources, dest.kind, i);
}

proof fn lemma_first_fault(cfg: DriverModel, sources: Seq<Source>, kind: PathKind, i: int)
    requires
        0 <= i < sources.len(),
        one_fault(cfg, sources[i], kind) is Some,
    ensures
        first_fault(cfg, sources, kind) is Some,
        clean_before(cfg, sources, kind, i) ==> first_fault(cfg, sources, kind) == one_fault(
            cfg,
            sources[i],
            kind,
        ),
    decreases sources.len(),
{
    if i > 0 {
        let rest = sources.drop_first();
        assert(rest[i - 1] == sources[i]);
        lemma_first_fault(cfg, rest, kind, i - 1);
        if clean_before(cfg, sources, kind, i) {
            assert(one_fault(cfg, sources[0], kind) is None);
            assert forall|k: int| 0 <= k < i - 1 implies one_fault(cfg, #[trigger] rest[k], kind)
                is None by {
                assert(rest[k] == sources[k + 1]);
            }
        }
    }
}

/// With the no-clobber flag set, the copy of one source onto an existing
/// file is refused because the destination exists.
pub proof fn no_clobber_protects_existing_file(
    cfg: DriverModel,
    source: Source,
    dest: Destination,
)
    requires
        cfg.no_clobber,
        dest.kind == PathKind::File,
    ensures
        single_fault(cfg, source, dest) == Some(would_clobber(dest.path)),
        single_fault(cfg, source, dest).unwrap() is DestinationExists,
{
}

/// A source that is its own destination is refused: as one source that
/// exists, because it is the same file; among the sources of a directory
/// copy, because nothing is copied into itself.
pub proof fn self_copy_is_refused(
    cfg: DriverModel,
    sources: Seq<Source>,
    dest: Destination,
    i: int,
)
    requires
        0 <= i < sources.len(),
        sources[i].is_destination,
    ensures
        single_fault(cfg, sources[i], dest) is Some,
        !(cfg.no_clobber && dest.kind == PathKind::File) && sources[i].root is Some
            ==> single_fault(cfg, sources[i], dest) == Some(same_file(dest.path)),
        all_fault(cfg, sources, dest) is Some,
        can_hold(sources, dest) && clean_before(cfg, sources, dest.kind, i) ==> all_fault(
            cfg,
            sources,
            dest,
        ) == source_fault(sources[i], cfg.recursive),
        source_fault(sources[i], cfg.recursive).unwrap() is InvalidSource,
{
    first_fault_wins(cfg, sources, dest, i);
}

/// Several sources and a destination that is no directory are refused
/// with an invalid destination, before any source is looked at.
pub proof fn several_sources_need_a_directory(
    cfg: DriverModel,
    sources: Seq<Source>,
    dest: Destination,
)
    requires
        sources.len() > 1,
        dest.kind != PathKind::Directory,
    ensures
        all_fault(cfg, sources, dest) == Some(not_a_directory()),
        not_a_directory() is InvalidDestination,
{
}

/// A source that does not exist is refused with an invalid source.
pub proof fn missing_source_is_refused(
    cfg: DriverModel,
    sources: Seq<Source>,
    dest: Destination,
    i: int,
)
    requires
        0 <= i < sources.len(),
        sources[i].root is None,
    ensures
        source_fault(sources[i], cfg.recursive) == Some(source_missing()),
        source_missing() is InvalidSource,
        all_fault(cfg, sources, dest) is Some,
        can_hold(sources, dest) && clean_before(cfg, sources, dest.kind, i) ==> all_fault(
            cfg,
            sources,
            dest,
        ) == Some(source_missing()),
        !(cfg.no_clobber && dest.kind == PathKind::File) ==> single_fault(cfg, sources[i], dest)
            == Some(source_missing()),
{
    first_fault_wins(cfg, sources, dest, i);
}

/// A directory is refused with an invalid source unless recursion is on.
pub proof fn directory_needs_recursion(
    cfg: DriverModel,
    sources: Seq<Source>,
    dest: Destination,
    i: int,
)
    requires
        0 <= i < sources.len(),
        sources[i].root is Some,
        sources[i].root.unwrap() is Directory,
        !cfg.recursive,
    ensures
        source_fault(sources[i], cfg.recursive) == Some(recursion_needed()),
        recursion_needed() is InvalidSource,
        all_fault(cfg, sources, dest) is Some,
        can_hold(sources, dest) && clean_before(cfg, sources, dest.kind, i) ==> all_fault(
            cfg,
            sources,
            dest,
        ) == Some(recursion_needed()),
        !(cfg.no_clobber && dest.kind == PathKind::File) && !sources[i].is_destination
            ==> single_fault(cfg, sources[i], dest) == Some(recursion_needed()),
{
    first_fault_wins(cfg, sources, dest, i);
}

} // verus!

//! The drivers: the strategies a copy is run with.
//!
//! A [`Driver`] is a checked configuration. It turns sources into a
//! [`Schedule`], refusing a request with a fault before anything is written,
//! and it makes the decisions that come up while the schedule is executed.

use vstd::prelude::*;
use vstd::string::*;
use crate::channel::{after_send, delivery, grew_by_one, StatSender};
use crate::errors::XcpError;
use crate::operations::{models, names, CopyOperation, OpKind, OpModel, StatusUpdate};
use crate::options::{pool_size, DriverKind, Opts};
use crate::planner::{
    check_source, plan_source, source_fault, source_missing, source_ops, Entry, Source,
};
use crate::request::{not_a_directory, nothing_found, same_file, would_clobber, Destination, PathKind};
use crate::schedule::{
    arrange, collision_free, directories_first_keeps_parents_first, execution_order,
    joined_plans_have_parents_first, order_keeps_paths_apart, order_rearranges_plan,
    parents_first, select, tree_plan_has_parents_first, Schedule,
};
use crate::tree_laws::{
    descend, distinct_names, every_entry_is_planned, operation_for, paths_are_unique,
    paths_stay_below, planned_at, under,
};
use crate::transfer::{CopyState, FileCopy};

verus! {

/// The mathematical value of a [`Driver`].
pub struct DriverModel {
    pub kind: DriverKind,
    pub workers: nat,
    pub block_size: nat,
    pub recursive: bool,
    pub no_clobber: bool,
    pub preserve_metadata: bool,
}

/// A strategy, ready to run.
pub struct Driver {
    kind: DriverKind,
    workers: u64,
    block_size: u64,
    recursive: bool,
    no_clobber: bool,
    preserve_metadata: bool,
}

impl View for Driver {
    type V = DriverModel;

    closed spec fn view(&self) -> DriverModel {
        DriverModel {
            kind: self.kind,
            workers: self.workers as nat,
            block_size: self.block_size as nat,
            recursive: self.recursive,
            no_clobber: self.no_clobber,
            preserve_metadata: self.preserve_metadata,
        }
    }
}

/// The driver that `opts` asks for on a machine with `available` hardware
/// threads. The parallel driver is chosen where it is asked for and the pool
/// has more than one worker; in every other case the sequential driver runs,
/// with one.
pub open spec fn configure(opts: Opts, available: u64) -> DriverModel {
    let pool = pool_size(opts.workers, available);
    let parallel = opts.driver == DriverKind::Parallel && pool > 1;
    DriverModel {
        kind: if parallel {
            DriverKind::Parallel
        } else {
            DriverKind::Sequential
        },
        workers: if parallel {
            pool as nat
        } else {
            1
        },
        block_size: opts.block_size as nat,
        recursive: opts.recursive,
        no_clobber: opts.no_clobber,
        preserve_metadata: opts.preserve_metadata,
    }
}

/// Every driver has at least one worker: the sequential driver exactly one,
/// the parallel driver two or more, and as many as were asked for or, where
/// none were asked for, as the machine has threads.
pub proof fn pool_is_sound(opts: Opts, available: u64)
    ensures
        configure(opts, available).workers >= 1,
        configure(opts, available).kind == DriverKind::Sequential ==> configure(
            opts,
            available,
        ).workers == 1,
        configure(opts, available).kind == DriverKind::Parallel ==> {
            &&& opts.driver == DriverKind::Parallel
            &&& configure(opts, available).workers == pool_size(opts.workers, available)
            &&& configure(opts, available).workers >= 2
        },
{
}

/// The failure of loading a driver that would copy in blocks of no bytes.
pub open spec fn empty_blocks(e: XcpError) -> bool {
    e matches XcpError::InvalidArguments(m) && m@ == "Block size must be greater than zero."@
}

/// The failure of copying a directory onto something that is none.
pub open spec fn directory_onto_file() -> XcpError {
    XcpError::InvalidDestination("Source is directory but target exists and is not a directory")
}

/// Whether something other than a directory lies at the destination.
pub open spec fn blocks_directory(kind: PathKind) -> bool {
    kind == PathKind::File || kind == PathKind::Other
}

/// Why one source cannot be copied to `dest`, if it cannot: the first
/// fault among no-clobber against an existing file, a missing source, a
/// source that is the destination, a directory without recursion, and a
/// directory bound for something that is none.
pub open spec fn single_fault(cfg: DriverModel, source: Source, dest: Destination) -> Option<
    XcpError,
> {
    if cfg.no_clobber && dest.kind == PathKind::File {
        Some(would_clobber(dest.path))
    } else if source.root is None {
        Some(source_missing())
    } else if source.is_destination {
        Some(same_file(dest.path))
    } else if source_fault(source, cfg.recursive) is Some {
        source_fault(source, cfg.recursive)
    } else if source.root.unwrap() is Directory && blocks_directory(dest.kind) {
        Some(directory_onto_file())
    } else {
        None
    }
}

/// Why `source` cannot be copied to a destination of kind `kind`, if it
/// cannot: its own fault first, then, for a directory, a destination that
/// is in its way.
pub open spec fn one_fault(cfg: DriverModel, source: Source, kind: PathKind) -> Option<XcpError> {
    if source_fault(source, cfg.recursive) is Some {
        source_fault(source, cfg.recursive)
    } else if source.root.unwrap() is Directory && blocks_directory(kind) {
        Some(directory_onto_file())
    } else {
        None
    }
}

/// The fault of the first of `sources` that has one.
pub open spec fn first_fault(cfg: DriverModel, sources: Seq<Source>, kind: PathKind) -> Option<
    XcpError,
>
    decreases sources.len(),
{
    if sources.len() == 0 {
        None
    } else if one_fault(cfg, sources[0], kind) is Some {
        one_fault(cfg, sources[0], kind)
    } else {
        first_fault(cfg, sources.drop_first(), kind)
    }
}

/// Why `sources` cannot be copied to `dest`, if they cannot: several
/// sources without a directory to go into, no source at all, or the first
/// fault of a source.
pub open spec fn all_fault(cfg: DriverModel, sources: Seq<Source>, dest: Destination) -> Option<
    XcpError,
> {
    if sources.len() > 1 && dest.kind != PathKind::Directory {
        Some(not_a_directory())
    } else if sources.len() == 0 {
        Some(nothing_found())
    } else {
        first_fault(cfg, sources, dest.kind)
    }
}

/// Where a source goes: under its own name inside a destination that is a
/// directory, and to the destination itself where there is none yet.
pub open spec fn base_of(source: Source, kind: PathKind) -> Seq<Seq<char>> {
    if kind == PathKind::Directory {
        seq![source.name@]
    } else {
        Seq::empty()
    }
}

/// How many names lie between the destination and the root of a copied
/// source.
pub open spec fn base_depth(kind: PathKind) -> nat {
    if kind == PathKind::Directory {
        1
    } else {
        0
    }
}

/// The plans of `sources`, one after the other.
pub open spec fn all_ops(sources: Seq<Source>, kind: PathKind) -> Seq<OpModel>
    decreases sources.len(),
{
    if sources.len() == 0 {
        Seq::empty()
    } else {
        all_ops(sources.drop_last(), kind) + source_ops(
            sources.last(),
            base_of(sources.last(), kind),
        )
    }
}

/// The update that reports the failure of `op` for the reason `cause`.
pub open spec fn reports_failure(update: StatusUpdate, op: OpModel, cause: Seq<char>) -> bool {
    update matches StatusUpdate::Error(XcpError::Io(m)) && m@ == op.source + ": "@ + cause
}

/// In the plans of sources that all exist, laid end to end, every nested
/// operation comes after the one that creates its directory.
pub proof fn all_ops_have_parents_first(sources: Seq<Source>, kind: PathKind)
    requires
        forall|i: int| 0 <= i < sources.len() ==> (#[trigger] sources[i]).root is Some,
    ensures
        parents_first(all_ops(sources, kind), base_depth(kind)),
    decreases sources.len(),
{
    if sources.len() > 0 {
        let last = sources.last();
        all_ops_have_parents_first(sources.drop_last(), kind);
        tree_plan_has_parents_first(last.root.unwrap(), last.path@, base_of(last, kind));
        joined_plans_have_parents_first(
            all_ops(sources.drop_last(), kind),
            source_ops(last, base_of(last, kind)),
            base_depth(kind),
        );
    }
}

proof fn lemma_all_ops_hold_each_plan(sources: Seq<Source>, kind: PathKind, i: int, k: int)
    requires
        0 <= i < sources.len(),
        0 <= k < source_ops(sources[i], base_of(sources[i], kind)).len(),
    ensures
        all_ops(sources, kind).contains(source_ops(sources[i], base_of(sources[i], kind))[k]),
    decreases sources.len(),
{
    let rest = sources.drop_last();
    let head = all_ops(rest, kind);
    let all = all_ops(sources, kind);
    if i == sources.len() - 1 {
        assert(all[head.len() + k] == source_ops(sources[i], base_of(sources[i], kind))[k]);
    } else {
        assert(rest[i] == sources[i]);
        lemma_all_ops_hold_each_plan(rest, kind, i, k);
        let at = choose|at: int|
            0 <= at < head.len() && head[at] == source_ops(sources[i], base_of(sources[i], kind))[k];
        assert(all[at] == head[at]);
    }
}

/// A copy leaves nothing out: whatever item of whichever source a walk
/// from its root reaches, be it a file, a link or a directory with nothing
/// in it, the schedule for the sources holds the operation that rebuilds
/// it, under the names the walk passed below the source's place at the
/// destination.
pub proof fn every_entry_of_every_source_is_scheduled(
    sources: Seq<Source>,
    kind: PathKind,
    i: int,
    steps: Seq<int>,
)
    requires
        0 <= i < sources.len(),
        sources[i].root is Some,
        descend(sources[i].root.unwrap(), steps) is Some,
    ensures
        execution_order(all_ops(sources, kind)).contains(
            operation_for(
                sources[i].root.unwrap(),
                sources[i].path@,
                base_of(sources[i], kind),
                steps,
            ),
        ),
{
    let root = sources[i].root.unwrap();
    let base = base_of(sources[i], kind);
    let plan = source_ops(sources[i], base);
    let wanted = operation_for(root, sources[i].path@, base, steps);
    every_entry_is_planned(root, sources[i].path@, base, steps);
    let k = choose|k: int| planned_at(plan, k, wanted);
    lemma_all_ops_hold_each_plan(sources, kind, i, k);
    let all = all_ops(sources, kind);
    let at = choose|at: int| 0 <= at < all.len() && all[at] == wanted;
    order_rearranges_plan(all);
    assert(all[at] == wanted);
}

/// The sources exist, bear pairwise different names, and hold no directory
/// with two items of one name.
pub open spec fn sources_distinct(sources: Seq<Source>) -> bool {
    &&& forall|i: int, j: int|
        0 <= i < j < sources.len() ==> (#[trigger] sources[i]).name@ != (
        #[trigger] sources[j]).name@
    &&& forall|i: int|
        0 <= i < sources.len() ==> (#[trigger] sources[i]).root is Some && distinct_names(
            sources[i].root.unwrap(),
        )
}

spec fn from_source(sources: Seq<Source>, c: int, path: Seq<Seq<char>>) -> bool {
    0 <= c < sources.len() && under(seq![sources[c].name@], path)
}

proof fn lemma_all_ops_stay_below(sources: Seq<Source>, k: int)
    requires
        0 <= k < all_ops(sources, PathKind::Directory).len(),
    ensures
        exists|c: int| from_source(sources, c, all_ops(sources, PathKind::Directory)[k].relative),
    decreases sources.len(),
{
    let rest = sources.drop_last();
    let last = sources.last();
    let head = all_ops(rest, PathKind::Directory);
    let all = all_ops(sources, PathKind::Directory);
    if k < head.len() {
        lemma_all_ops_stay_below(rest, k);
        let path = head[k].relative;
        let c = choose|c: int| from_source(rest, c, path);
        assert(rest[c] == sources[c]);
        assert(from_source(sources, c, all[k].relative));
    } else {
        let tail = source_ops(last, seq![last.name@]);
        assert(all[k] == tail[k - head.len()]);
        paths_stay_below(last.root.unwrap(), last.path@, seq![last.name@]);
        assert(from_source(sources, sources.len() - 1, all[k].relative));
    }
}

proof fn lemma_all_ops_collision_free(sources: Seq<Source>, kind: PathKind)
    requires
        sources_distinct(sources),
        sources.len() <= 1 || kind == PathKind::Directory,
    ensures
        collision_free(all_ops(sources, kind)),
    decreases sources.len(),
{
    if sources.len() > 0 {
        let rest = sources.drop_last();
        let last = sources.last();
        let head = all_ops(rest, kind);
        let tail = source_ops(last, base_of(last, kind));
        let all = all_ops(sources, kind);
        assert forall|i: int, j: int| 0 <= i < j < rest.len() implies (#[trigger] rest[i]).name@ != (
        #[trigger] rest[j]).name@ by {
            assert(rest[i] == sources[i] && rest[j] == sources[j]);
        }
        assert forall|i: int| 0 <= i < rest.len() implies (#[trigger] rest[i]).root is Some
            && distinct_names(rest[i].root.unwrap()) by {
            assert(rest[i] == sources[i]);
        }
        lemma_all_ops_collision_free(rest, kind);
        paths_are_unique(last.root.unwrap(), last.path@, base_of(last, kind));
        paths_stay_below(last.root.unwrap(), last.path@, base_of(last, kind));
        assert forall|i: int, j: int| 0 <= i < j < all.len() implies (#[trigger] all[i]).relative != (
        #[trigger] all[j]).relative by {
            if j < head.len() {
                assert(all[i] == head[i] && all[j] == head[j]);
            } else if i >= head.len() {
                assert(all[i] == tail[i - head.len()] && all[j] == tail[j - head.len()]);
            } else {
                assert(all[i] == head[i] && all[j] == tail[j - head.len()]);
                lemma_all_ops_stay_below(rest, i);
                let path = head[i].relative;
                let c = choose|c: int| from_source(rest, c, path);
                assert(rest[c] == sources[c]);
                assert(path.subrange(0, 1)[0] == path[0]);
                assert(all[j].relative.subrange(0, 1)[0] == all[j].relative[0]);
                assert(sources[c].name@ != sources[sources.len() - 1].name@);
            }
        }
    }
}

/// Workers never meet at one place: where the sources bear different names
/// and no directory in them holds a name twice, no two operations of the
/// schedule, and so no two transfers that run side by side, go to the same
/// place.
pub proof fn copies_do_not_collide(sources: Seq<Source>, kind: PathKind)
    requires
        sources_distinct(sources),
        sources.len() <= 1 || kind == PathKind::Directory,
    ensures
        collision_free(execution_order(all_ops(sources, kind))),
        collision_free(select(all_ops(sources, kind), true)),
        collision_free(select(all_ops(sources, kind), false)),
{
    lemma_all_ops_collision_free(sources, kind);
    order_keeps_paths_apart(all_ops(sources, kind));
}

proof fn lemma_no_fault_means_present(cfg: DriverModel, sources: Seq<Source>, kind: PathKind)
    requires
        first_fault(cfg, sources, kind) is None,
    ensures
        forall|i: int|
            0 <= i < sources.len() ==> one_fault(cfg, #[trigger] sources[i], kind) is None,
    decreases sources.len(),
{
    if sources.len() > 0 {
        lemma_no_fault_means_present(cfg, sources.drop_first(), kind);
        assert forall|i: int| 0 <= i < sources.len() implies one_fault(
            cfg,
            #[trigger] sources[i],
            kind,
        ) is None by {
            if i > 0 {
                assert(sources[i] == sources.drop_first()[i - 1]);
            }
        }
    }
}

/// Loads the driver that `opts` asks for; `available` is the number of
/// hardware threads of the machine. Blocks of no bytes would never finish a
/// file, so a block size of zero is refused.
pub fn load_driver(opts: &Opts, available: u64) -> (r: Result<Driver, XcpError>)
    ensures
        match r {
            Ok(driver) => opts.block_size > 0 && driver@ == configure(*opts, available),
            Err(e) => opts.block_size == 0 && empty_blocks(e),
        },
{
    if opts.block_size == 0 {
        return Err(
            XcpError::InvalidArguments(String::from_str("Block size must be greater than zero.")),
        );
    }
    let pool = opts.num_workers(available);
    let parallel = opts.driver == DriverKind::Parallel && pool > 1;
    Ok(
        Driver {
            kind: if parallel {
                DriverKind::Parallel
            } else {
                DriverKind::Sequential
            },
            workers: if parallel {
                pool
            } else {
                1
            },
            block_size: opts.block_size,
            recursive: opts.recursive,
            no_clobber: opts.no_clobber,
            preserve_metadata: opts.preserve_metadata,
        },
    )
}

impl Driver {
    #[verifier::type_invariant]
    spec fn inv(self) -> bool {
        &&& self.block_size >= 1
        &&& self.kind == DriverKind::Sequential ==> self.workers == 1
        &&& self.kind == DriverKind::Parallel ==> self.workers >= 2
    }

    /// The strategy.
    pub fn kind(&self) -> (kind: DriverKind)
        ensures
            kind == self@.kind,
    {
        self.kind
    }

    /// The number of workers: one for the sequential driver, two or more for
    /// the parallel one.
    pub fn workers(&self) -> (n: u64)
        ensures
            n == self@.workers,
            self@.kind == DriverKind::Sequential ==> n == 1,
            self@.kind == DriverKind::Parallel ==> n >= 2,
    {
        proof {
            use_type_invariant(self);
        }
        self.workers
    }

    /// The number of bytes that one buffered step moves; never zero.
    pub fn block_size(&self) -> (n: u64)
        ensures
            n == self@.block_size,
            n >= 1,
    {
        proof {
            use_type_invariant(self);
        }
        self.block_size
    }

    /// Whether mode bits, timestamps and ownership are carried over once
    /// the content is in place.
    pub fn preserve_metadata(&self) -> (b: bool)
        ensures
            b == self@.preserve_metadata,
    {
        self.preserve_metadata
    }

    fn check_single(&self, source: &Source, dest: &Destination) -> (r: Result<(), XcpError>)
        ensures
            r == (match single_fault(self@, *source, *dest) {
                Some(e) => Err::<(), XcpError>(e),
                None => Ok(()),
            }),
    {
        if self.no_clobber && dest.kind == PathKind::File {
            return Err(
                XcpError::DestinationExists(
                    "Destination file exists and --no-clobber is set.",
                    dest.path.clone(),
                ),
            );
        }
        if source.root.is_none() {
            return Err(XcpError::InvalidSource("Source does not exist."));
        }
        if source.is_destination {
            return Err(
                XcpError::DestinationExists(
                    "Source and destination is the same file.",
                    dest.path.clone(),
                ),
            );
        }
        match check_source(source, self.recursive) {
            Err(e) => {
                return Err(e);
            },
            Ok(_) => {},
        }
        let is_directory = match &source.root {
            Some(Entry::Directory { .. }) => true,
            _ => false,
        };
        if is_directory && (dest.kind == PathKind::File || dest.kind == PathKind::Other) {
            return Err(
                XcpError::InvalidDestination(
                    "Source is directory but target exists and is not a directory",
                ),
            );
        }
        Ok(())
    }

    fn check_all(&self, sources: &Vec<Source>, dest: &Destination) -> (r: Result<(), XcpError>)
        ensures
            r == (match all_fault(self@, sources@, *dest) {
                Some(e) => Err::<(), XcpError>(e),
                None => Ok(()),
            }),
    {
        if sources.len() > 1 && dest.kind != PathKind::Directory {
            return Err(
                XcpError::InvalidDestination("Multiple sources and destination is not a directory."),
            );
        }
        if sources.len() == 0 {
            return Err(XcpError::InvalidSource("No source files found."));
        }
        let blocked = dest.kind == PathKind::File || dest.kind == PathKind::Other;
        let mut i: usize = 0;
        assert(sources@.subrange(0, sources@.len() as int) =~= sources@);
        while i < sources.len()
            invariant
                i <= sources.len(),
                blocked == blocks_directory(dest.kind),
                all_fault(self@, sources@, *dest) == first_fault(self@, sources@, dest.kind),
                first_fault(self@, sources@, dest.kind) == first_fault(
                    self@,
                    sources@.subrange(i as int, sources@.len() as int),
                    dest.kind,
                ),
            decreases sources.len() - i,
        {
            proof {
                let left = sources@.subrange(i as int, sources@.len() as int);
                assert(left[0] == sources@[i as int]);
                assert(left.drop_first() =~= sources@.subrange(i + 1, sources@.len() as int));
            }
            match check_source(&sources[i], self.recursive) {
                Err(e) => {
                    return Err(e);
                },
                Ok(_) => {},
            }
            let is_directory = match &sources[i].root {
                Some(Entry::Directory { .. }) => true,
                _ => false,
            };
            if is_directory && blocked {
                return Err(
                    XcpError::InvalidDestination(
                        "Source is directory but target exists and is not a directory",
                    ),
                );
            }
            i += 1;
        }
        Ok(())
    }

    /// Plans the copy of one source onto the destination path itself.
    ///
    /// A request with a fault is refused with that fault, and nothing is
    /// scheduled. Otherwise the schedule holds the plan of the source tree,
    /// directories first, and in its order every directory comes before
    /// what it holds.
    pub fn copy_single(&self, source: &Source, dest: &Destination) -> (r: Result<
        Schedule,
        XcpError,
    >)
        ensures
            match single_fault(self@, *source, *dest) {
                Some(e) => r == Err::<Schedule, XcpError>(e),
                None => {
                    &&& r is Ok
                    &&& r.unwrap().is_for(
                        source_ops(*source, Seq::empty()),
                        self@.workers,
                    )
                    &&& r.unwrap().order() == execution_order(source_ops(*source, Seq::empty()))
                    &&& parents_first(r.unwrap().order(), 0)
                },
            },
    {
        match self.check_single(source, dest) {
            Err(e) => {
                return Err(e);
            },
            Ok(_) => {},
        }
        let base: Vec<String> = Vec::new();
        assert(names(base@) =~= Seq::<Seq<char>>::empty());
        match plan_source(source, self.recursive, &base) {
            Err(e) => Err(e),
            Ok(plan) => {
                proof {
                    tree_plan_has_parents_first(source.root.unwrap(), source.path@, Seq::empty());
                    directories_first_keeps_parents_first(models(plan@), 0);
                }
                Ok(arrange(&plan, self.workers))
            },
        }
    }

    /// Plans the copy of `sources` to `dest`: each under its own name into
    /// a destination that is a directory, a single one onto a destination
    /// that does not exist yet.
    ///
    /// Every source is checked before anything is planned. A request with a
    /// fault is refused with that fault, and nothing is scheduled. Otherwise
    /// the schedule holds the plans of all sources, directories first, and in
    /// its order every directory comes before what it holds.
    pub fn copy_all(&self, sources: &Vec<Source>, dest: &Destination) -> (r: Result<
        Schedule,
        XcpError,
    >)
        ensures
            match all_fault(self@, sources@, *dest) {
                Some(e) => r == Err::<Schedule, XcpError>(e),
                None => {
                    &&& r is Ok
                    &&& r.unwrap().is_for(all_ops(sources@, dest.kind), self@.workers)
                    &&& r.unwrap().order() == execution_order(all_ops(sources@, dest.kind))
                    &&& parents_first(r.unwrap().order(), base_depth(dest.kind))
                },
            },
    {
        match self.check_all(sources, dest) {
            Err(e) => {
                return Err(e);
            },
            Ok(_) => {},
        }
        proof {
            lemma_no_fault_means_present(self@, sources@, dest.kind);
        }
        let mut plan: Vec<CopyOperation> = Vec::new();
        let mut i: usize = 0;
        assert(sources@.take(0) =~= Seq::<Source>::empty());
        assert(models(plan@) =~= Seq::<OpModel>::empty());
        while i < sources.len()
            invariant
                i <= sources.len(),
                forall|k: int|
                    0 <= k < sources@.len() ==> one_fault(self@, #[trigger] sources@[k], dest.kind)
                        is None,
                models(plan@) == all_ops(sources@.take(i as int), dest.kind),
            decreases sources.len() - i,
        {
            let source = &sources[i];
            let mut base: Vec<String> = Vec::new();
            if dest.kind == PathKind::Directory {
                base.push(source.name.clone());
            }
            proof {
                assert(names(base@) =~= base_of(*source, dest.kind));
                assert(one_fault(self@, sources@[i as int], dest.kind) is None);
                let next = sources@.take(i + 1);
                assert(next.drop_last() =~= sources@.take(i as int));
                assert(next.last() == *source);
            }
            match plan_source(source, self.recursive, &base) {
                Err(e) => {
                    return Err(e);
                },
                Ok(part) => {
                    let ghost before = models(plan@);
                    let mut k: usize = 0;
                    assert(models(part@).take(0) =~= Seq::<OpModel>::empty());
                    while k < part.len()
                        invariant
                            k <= part.len(),
                            models(plan@) == before + models(part@).take(k as int),
                        decreases part.len() - k,
                    {
                        let ghost so_far = models(plan@);
                        plan.push(part[k].duplicate());
                        assert(models(plan@) =~= so_far.push(part@[k as int]@));
                        assert(models(part@).take(k + 1) =~= models(part@).take(k as int).push(
                            part@[k as int]@,
                        ));
                        k += 1;
                    }
                    assert(models(part@).take(part.len() as int) =~= models(part@));
                },
            }
            i += 1;
        }
        proof {
            assert(sources@.take(sources.len() as int) =~= sources@);
            assert forall|k: int| 0 <= k < sources@.len() implies (#[trigger] sources@[k]).root
                is Some by {
                assert(one_fault(self@, sources@[k], dest.kind) is None);
            }
            all_ops_have_parents_first(sources@, dest.kind);
            directories_first_keeps_parents_first(models(plan@), base_depth(dest.kind));
        }
        Ok(arrange(&plan, self.workers))
    }

    /// Decides whether `op` may write to its target, given whether
    /// something exists there already. With the no-clobber flag set, no file
    /// or link is written over anything; directories may always be entered.
    pub fn check_target(&self, op: &CopyOperation, target_exists: bool, target: String) -> (r: Result<
        (),
        XcpError,
    >)
        ensures
            r == (if self@.no_clobber && target_exists && !(op@.kind is Directory) {
                Err::<(), XcpError>(would_clobber(target))
            } else {
                Ok(())
            }),
    {
        if self.no_clobber && target_exists && !op.is_directory() {
            Err(
                XcpError::DestinationExists(
                    "Destination file exists and --no-clobber is set.",
                    target,
                ),
            )
        } else {
            Ok(())
        }
    }

    /// Begins the copy of the file that `op` stands for, and returns the
    /// update that announces it. The clone is tried first by the parallel
    /// driver alone, and only where the filesystems can do it. An operation
    /// that is no file copy begins nothing.
    pub fn begin_file(&self, op: &CopyOperation, reflink_supported: bool) -> (r: Option<
        (FileCopy, StatusUpdate),
    >)
        ensures
            match r {
                Some((copy, update)) => {
                    &&& op@.kind is File
                    &&& copy@ == CopyState::begun(
                        op@.bytes() as u64,
                        self@.block_size as u64,
                        self@.kind == DriverKind::Parallel && reflink_supported,
                    )
                    &&& copy@.valid()
                    &&& update == StatusUpdate::Size(op@.bytes() as u64)
                },
                None => !(op@.kind is File),
            },
    {
        proof {
            use_type_invariant(self);
        }
        match op.kind {
            OpKind::File { size } => Some(
                FileCopy::start(
                    size,
                    self.block_size,
                    self.kind == DriverKind::Parallel && reflink_supported,
                ),
            ),
            _ => None,
        }
    }

    /// Begins the copy of the file that `op` stands for, as
    /// [`Driver::begin_file`] does, and sends the update that announces it.
    /// An operation that is no file copy begins nothing and sends nothing.
    /// Only the channel can make this fail.
    pub fn announce_file(
        &self,
        op: &CopyOperation,
        reflink_supported: bool,
        stats: &mut StatSender,
    ) -> (r: Result<Option<FileCopy>, XcpError>)
        ensures
            final(stats).end() == old(stats).end(),
            final(stats).handed() == (if op@.kind is File {
                after_send(old(stats).handed(), StatusUpdate::Size(op@.bytes() as u64), r is Ok)
            } else {
                old(stats).handed()
            }),
            match r {
                Ok(Some(copy)) => {
                    &&& op@.kind is File
                    &&& copy@ == CopyState::begun(
                        op@.bytes() as u64,
                        self@.block_size as u64,
                        self@.kind == DriverKind::Parallel && reflink_supported,
                    )
                    &&& copy@.valid()
                },
                Ok(None) => !(op@.kind is File),
                Err(e) => op@.kind is File && e == XcpError::Channel,
            },
    {
        match self.begin_file(op, reflink_supported) {
            Some((copy, update)) => match stats.send(update) {
                Ok(_) => Ok(Some(copy)),
                Err(e) => Err(e),
            },
            None => Ok(None),
        }
    }
}

/// Reports on the channel that `op` failed for good, for the reason
/// `cause`: sends the update that [`failure`] makes, and no other. Only the
/// channel can make this fail.
///
/// Where the report succeeds, the sender has put exactly one more update
/// into the channel, an error that names the operation by its source path
/// and gives the cause. Where it fails, the sender has put in nothing.
pub fn report_failure(op: &CopyOperation, cause: &str, stats: &mut StatSender) -> (r: Result<
    (),
    XcpError,
>)
    ensures
        r == delivery(r is Ok),
        final(stats).end() == old(stats).end(),
        r is Ok ==> {
            &&& grew_by_one(old(stats).handed(), final(stats).handed())
            &&& reports_failure(final(stats).handed().last(), op@, cause@)
        },
        r is Err ==> final(stats).handed() == old(stats).handed(),
{
    let update = failure(op, cause);
    let ghost before = stats.handed();
    let r = stats.send(update);
    proof {
        if r is Ok {
            assert(before.push(update).drop_last() =~= before);
        }
    }
    r
}

/// The update that reports that `op` failed for good, for the reason
/// `cause`. It names the operation by its source path.
pub fn failure(op: &CopyOperation, cause: &str) -> (update: StatusUpdate)
    ensures
        reports_failure(update, op@, cause@),
{
    let text = op.source_path.clone().concat(": ").concat(cause);
    StatusUpdate::Error(XcpError::Io(text))
}

} // verus!

//! The order of execution: every directory first, then the files and links.
//!
//! Directories are created up front, by the caller's own thread, in the
//! order of the plan. Files and links depend on no other file or link, so
//! once the directories stand, workers may take them in any order.

use vstd::prelude::*;
use crate::operations::{models, CopyOperation, OpModel};
use crate::planner::{entry_ops, Entry};
use crate::tree_laws::{
    descend, every_entry_is_planned, operation_for, parent_at, parent_precedes,
    parents_come_first, planned_at,
};

verus! {

/// What a driver hands to its executor.
#[derive(Debug, PartialEq, Eq)]
pub struct Schedule {
    /// The directories to create, one after the other, before anything else.
    pub directories: Vec<CopyOperation>,
    /// The files to copy and the links to recreate, once the directories
    /// stand.
    pub transfers: Vec<CopyOperation>,
    /// The number of workers to share the transfers among.
    pub workers: u64,
}

/// The operations of `plan` that create directories, or those that do not,
/// in the order of the plan.
pub open spec fn select(plan: Seq<OpModel>, directories: bool) -> Seq<OpModel>
    decreases plan.len(),
{
    if plan.len() == 0 {
        Seq::empty()
    } else if (plan.last().kind is Directory) == directories {
        select(plan.drop_last(), directories).push(plan.last())
    } else {
        select(plan.drop_last(), directories)
    }
}

/// The order in which the operations of `plan` are begun.
pub open spec fn execution_order(plan: Seq<OpModel>) -> Seq<OpModel> {
    select(plan, true) + select(plan, false)
}

/// Every operation of `ops` that goes more than `depth` names below the
/// destination comes after the operation that creates its directory.
pub open spec fn parents_first(ops: Seq<OpModel>, depth: nat) -> bool {
    forall|j: int|
        0 <= j < ops.len() && (#[trigger] ops[j]).relative.len() > depth ==> parent_precedes(
            ops,
            j,
        )
}

impl Schedule {
    /// The order in which the operations are begun.
    pub open spec fn order(self) -> Seq<OpModel> {
        models(self.directories@) + models(self.transfers@)
    }

    /// This schedule is the one for `plan`, to be run by `workers` workers.
    pub open spec fn is_for(self, plan: Seq<OpModel>, workers: nat) -> bool {
        &&& models(self.directories@) == select(plan, true)
        &&& models(self.transfers@) == select(plan, false)
        &&& self.workers == workers
    }
}

spec fn origin(plan: Seq<OpModel>, directories: bool, k: int, j: int) -> bool {
    &&& 0 <= j < plan.len()
    &&& 0 <= k < select(plan, directories).len()
    &&& plan[j] == select(plan, directories)[k]
    &&& select(plan.take(j), directories) == select(plan, directories).take(k)
}

spec fn selected_at(plan: Seq<OpModel>, directories: bool, i: int, k: int) -> bool {
    0 <= k < select(plan, directories).len() && select(plan, directories)[k] == plan[i]
}

proof fn lemma_select_origin(plan: Seq<OpModel>, directories: bool, k: int)
    requires
        0 <= k < select(plan, directories).len(),
    ensures
        exists|j: int| origin(plan, directories, k, j),
    decreases plan.len(),
{
    let rest = plan.drop_last();
    let head = select(rest, directories);
    if k < head.len() {
        lemma_select_origin(rest, directories, k);
        let j = choose|j: int| origin(rest, directories, k, j);
        assert(rest.take(j) =~= plan.take(j));
        assert(head.take(k) =~= select(plan, directories).take(k));
        assert(origin(plan, directories, k, j));
    } else {
        let j = plan.len() - 1;
        assert(plan.take(j) =~= rest);
        assert(select(plan, directories).take(k) =~= head);
        assert(origin(plan, directories, k, j));
    }
}

proof fn lemma_select_member(plan: Seq<OpModel>, directories: bool, i: int)
    requires
        0 <= i < plan.len(),
        (plan[i].kind is Directory) == directories,
    ensures
        exists|k: int| selected_at(plan, directories, i, k),
    decreases plan.len(),
{
    let rest = plan.drop_last();
    let head = select(rest, directories);
    if i < plan.len() - 1 {
        lemma_select_member(rest, directories, i);
        let k = choose|k: int| selected_at(rest, directories, i, k);
        assert(selected_at(plan, directories, i, k));
    } else {
        assert(selected_at(plan, directories, i, head.len() as int));
    }
}

/// Creating all directories first keeps every parent before its children:
/// where each nested operation of a plan has its directory before it, the
/// same holds of the order in which the plan is executed.
pub proof fn directories_first_keeps_parents_first(plan: Seq<OpModel>, depth: nat)
    requires
        parents_first(plan, depth),
    ensures
        parents_first(execution_order(plan), depth),
{
    let dirs = select(plan, true);
    let rest = select(plan, false);
    let order = execution_order(plan);
    assert forall|m: int| 0 <= m < order.len() && (#[trigger] order[m]).relative.len()
        > depth implies parent_precedes(order, m) by {
        let in_dirs = m < dirs.len();
        let k = if in_dirs {
            m
        } else {
            m - dirs.len()
        };
        lemma_select_origin(plan, in_dirs, k);
        let j = choose|j: int| origin(plan, in_dirs, k, j);
        assert(plan[j] == order[m]);
        assert(parent_precedes(plan, j));
        let i = choose|i: int| parent_at(plan, i, j);
        if in_dirs {
            let before = plan.take(j);
            assert(before[i] == plan[i]);
            lemma_select_member(before, true, i);
            let p = choose|p: int| selected_at(before, true, i, p);
            assert(select(before, true) == dirs.take(m));
            assert(dirs.take(m)[p] == dirs[p]);
            assert(order[p] == dirs[p]);
            assert(parent_at(order, p, m));
        } else {
            lemma_select_member(plan, true, i);
            let p = choose|p: int| selected_at(plan, true, i, p);
            assert(order[p] == dirs[p]);
            assert(parent_at(order, p, m));
        }
    }
}

/// In the plan of one tree, bound for `rel`, every operation that goes
/// below `rel` comes after the one that creates its directory.
pub proof fn tree_plan_has_parents_first(
    entry: Entry,
    source: Seq<char>,
    rel: Seq<Seq<char>>,
)
    ensures
        parents_first(entry_ops(entry, source, rel), rel.len()),
{
    let ops = entry_ops(entry, source, rel);
    parents_come_first(entry, source, rel);
    assert forall|j: int| 0 <= j < ops.len() && (#[trigger] ops[j]).relative.len()
        > rel.len() implies parent_precedes(ops, j) by {
        assert(ops[0].relative == rel);
    }
}

/// Plans laid end to end keep every parent before its children.
pub proof fn joined_plans_have_parents_first(a: Seq<OpModel>, b: Seq<OpModel>, depth: nat)
    requires
        parents_first(a, depth),
        parents_first(b, depth),
    ensures
        parents_first(a + b, depth),
{
    let ops = a + b;
    assert forall|j: int| 0 <= j < ops.len() && (#[trigger] ops[j]).relative.len()
        > depth implies parent_precedes(ops, j) by {
        if j < a.len() {
            assert(ops[j] == a[j]);
            assert(parent_precedes(a, j));
            let i = choose|i: int| parent_at(a, i, j);
            assert(ops[i] == a[i]);
            assert(parent_at(ops, i, j));
        } else {
            let t = j - a.len();
            assert(ops[j] == b[t]);
            assert(parent_precedes(b, t));
            let i = choose|i: int| parent_at(b, i, t);
            assert(ops[a.len() + i] == b[i]);
            assert(parent_at(ops, a.len() + i, j));
        }
    }
}

/// The order of execution is the plan rearranged: it is as long as the
/// plan, holds every operation of it, and holds nothing else.
pub proof fn order_rearranges_plan(plan: Seq<OpModel>)
    ensures
        execution_order(plan).len() == plan.len(),
        forall|j: int|
            0 <= j < plan.len() ==> execution_order(plan).contains(#[trigger] plan[j]),
        forall|k: int|
            0 <= k < execution_order(plan).len() ==> plan.contains(
                #[trigger] execution_order(plan)[k],
            ),
{
    let dirs = select(plan, true);
    let rest = select(plan, false);
    let order = execution_order(plan);
    lemma_select_lengths(plan);
    assert forall|j: int| 0 <= j < plan.len() implies order.contains(#[trigger] plan[j]) by {
        let directory = plan[j].kind is Directory;
        lemma_select_member(plan, directory, j);
        let k = choose|k: int| selected_at(plan, directory, j, k);
        if directory {
            assert(order[k] == plan[j]);
        } else {
            assert(order[dirs.len() + k] == plan[j]);
        }
    }
    assert forall|k: int| 0 <= k < order.len() implies plan.contains(#[trigger] order[k]) by {
        let in_dirs = k < dirs.len();
        let at = if in_dirs {
            k
        } else {
            k - dirs.len()
        };
        lemma_select_origin(plan, in_dirs, at);
        let j = choose|j: int| origin(plan, in_dirs, at, j);
        assert(plan[j] == order[k]);
    }
}

proof fn lemma_select_lengths(plan: Seq<OpModel>)
    ensures
        select(plan, true).len() + select(plan, false).len() == plan.len(),
    decreases plan.len(),
{
    if plan.len() > 0 {
        lemma_select_lengths(plan.drop_last());
    }
}

/// The whole tree is scheduled: whatever item of it a walk from the root
/// reaches, an empty directory as much as a file, the order of execution
/// holds the operation that rebuilds it.
pub proof fn every_entry_is_scheduled(
    entry: Entry,
    source: Seq<char>,
    rel: Seq<Seq<char>>,
    steps: Seq<int>,
)
    requires
        descend(entry, steps) is Some,
    ensures
        execution_order(entry_ops(entry, source, rel)).contains(
            operation_for(entry, source, rel, steps),
        ),
{
    let plan = entry_ops(entry, source, rel);
    let wanted = operation_for(entry, source, rel, steps);
    every_entry_is_planned(entry, source, rel, steps);
    let k = choose|k: int| planned_at(plan, k, wanted);
    order_rearranges_plan(plan);
    assert(plan[k] == wanted);
}

/// No two operations of `ops` go to the same place.
pub open spec fn collision_free(ops: Seq<OpModel>) -> bool {
    forall|i: int, j: int|
        0 <= i < j < ops.len() ==> (#[trigger] ops[i]).relative != (#[trigger] ops[j]).relative
}

/// Rearranging a plan for execution makes no two operations meet: where
/// the operations of a plan go to pairwise different places, so do the
/// operations in the order of execution, and with them the transfers that
/// workers carry out side by side.
pub proof fn order_keeps_paths_apart(plan: Seq<OpModel>)
    requires
        collision_free(plan),
    ensures
        collision_free(execution_order(plan)),
        collision_free(select(plan, true)),
        collision_free(select(plan, false)),
{
    let dirs = select(plan, true);
    let order = execution_order(plan);
    assert forall|a: int, b: int| 0 <= a < b < order.len() implies (#[trigger] order[a]).relative
        != (#[trigger] order[b]).relative by {
        let a_dir = a < dirs.len();
        let b_dir = b < dirs.len();
        let ka = if a_dir {
            a
        } else {
            a - dirs.len()
        };
        let kb = if b_dir {
            b
        } else {
            b - dirs.len()
        };
        lemma_select_origin(plan, a_dir, ka);
        lemma_select_origin(plan, b_dir, kb);
        let ja = choose|j: int| origin(plan, a_dir, ka, j);
        let jb = choose|j: int| origin(plan, b_dir, kb, j);
        assert(plan[ja] == order[a] && plan[jb] == order[b]);
        if a_dir == b_dir {
            let picked = select(plan, a_dir);
            assert(picked.take(ka).len() == ka && picked.take(kb).len() == kb);
            assert(ja != jb);
        } else {
            lemma_select_kind(plan, a_dir, ka);
            lemma_select_kind(plan, b_dir, kb);
            assert(ja != jb);
        }
        if ja < jb {
            assert(plan[ja].relative != plan[jb].relative);
        } else {
            assert(plan[jb].relative != plan[ja].relative);
        }
    }
    assert forall|a: int, b: int| 0 <= a < b < dirs.len() implies (#[trigger] dirs[a]).relative != (
    #[trigger] dirs[b]).relative by {
        assert(order[a] == dirs[a] && order[b] == dirs[b]);
    }
    let rest = select(plan, false);
    assert forall|a: int, b: int| 0 <= a < b < rest.len() implies (#[trigger] rest[a]).relative != (
    #[trigger] rest[b]).relative by {
        assert(order[dirs.len() + a] == rest[a] && order[dirs.len() + b] == rest[b]);
    }
}

proof fn lemma_select_kind(plan: Seq<OpModel>, directories: bool, k: int)
    requires
        0 <= k < select(plan, directories).len(),
    ensures
        (select(plan, directories)[k].kind is Directory) == directories,
    decreases plan.len(),
{
    if k < select(plan.drop_last(), directories).len() {
        lemma_select_kind(plan.drop_last(), directories, k);
    }
}

/// The operation at `i` creates a directory that lies `levels` above the
/// target of the operation at `j`, and stands before it.
pub open spec fn ancestor_at(ops: Seq<OpModel>, i: int, j: int, levels: int) -> bool {
    &&& 0 <= i < j < ops.len()
    &&& 1 <= levels <= ops[j].relative.len()
    &&& ops[i].kind is Directory
    &&& ops[i].relative == ops[j].relative.take(ops[j].relative.len() - levels)
}

/// Where every parent comes first, so does every ancestor: each directory
/// on the way from `depth` names below the destination down to the target
/// of an operation is created by an earlier operation.
pub proof fn ancestors_come_first(ops: Seq<OpModel>, depth: nat, j: int, levels: int)
    requires
        parents_first(ops, depth),
        0 <= j < ops.len(),
        1 <= levels <= ops[j].relative.len() - depth,
    ensures
        exists|i: int| ancestor_at(ops, i, j, levels),
    decreases levels,
{
    let path = ops[j].relative;
    assert(parent_precedes(ops, j));
    let p = choose|p: int| parent_at(ops, p, j);
    assert(path.drop_last() =~= path.take(path.len() - 1));
    if levels == 1 {
        assert(ancestor_at(ops, p, j, 1));
    } else {
        let above = levels - 1;
        ancestors_come_first(ops, depth, p, above);
        let i = choose|i: int| ancestor_at(ops, i, p, above);
        assert(ops[p].relative.take(ops[p].relative.len() - above) =~= path.take(
            path.len() - levels,
        ));
        assert(ancestor_at(ops, i, j, levels));
    }
}

/// Arranges a plan for execution by `workers` workers: directories first,
/// then everything else, each group in the order of the plan.
pub fn arrange(plan: &Vec<CopyOperation>, workers: u64) -> (schedule: Schedule)
    ensures
        schedule.is_for(models(plan@), workers as nat),
        schedule.order() == execution_order(models(plan@)),
{
    let mut directories: Vec<CopyOperation> = Vec::new();
    let mut transfers: Vec<CopyOperation> = Vec::new();
    let mut i: usize = 0;
    assert(models(plan@).take(0) =~= Seq::<OpModel>::empty());
    assert(models(directories@) =~= Seq::<OpModel>::empty());
    assert(models(transfers@) =~= Seq::<OpModel>::empty());
    while i < plan.len()
        invariant
            i <= plan.len(),
            models(directories@) == select(models(plan@).take(i as int), true),
            models(transfers@) == select(models(plan@).take(i as int), false),
        decreases plan.len() - i,
    {
        let op = plan[i].duplicate();
        proof {
            let next = models(plan@).take(i + 1);
            assert(next.drop_last() =~= models(plan@).take(i as int));
            assert(next.last() == op@);
        }
        if op.is_directory() {
            let ghost before = models(directories@);
            directories.push(op);
            assert(models(directories@) =~= before.push(op@));
        } else {
            let ghost before = models(transfers@);
            transfers.push(op);
            assert(models(transfers@) =~= before.push(op@));
        }
        i += 1;
    }
    assert(models(plan@).take(plan.len() as int) =~= models(plan@));
    Schedule { directories, transfers, workers }
}

} // verus!

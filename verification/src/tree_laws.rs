//! What holds of every plan: each directory comes before what it holds, no
//! destination path is planned twice, and nothing in the source is left out.

use vstd::prelude::*;
use crate::operations::{KindModel, OpModel};
use crate::planner::{child_path, children_ops, entry_ops, kind_of, Child, Entry};

verus! {

/// `path` lies at or below `prefix`.
pub open spec fn under(prefix: Seq<Seq<char>>, path: Seq<Seq<char>>) -> bool {
    prefix.len() <= path.len() && path.subrange(0, prefix.len() as int) == prefix
}

/// The operation at `i` creates the directory that directly holds the
/// target of the operation at `j`, and stands before it.
pub open spec fn parent_at(ops: Seq<OpModel>, i: int, j: int) -> bool {
    &&& 0 <= i < j < ops.len()
    &&& ops[i].kind is Directory
    &&& ops[j].relative.len() > 0
    &&& ops[i].relative == ops[j].relative.drop_last()
}

/// Some earlier operation creates the directory that directly holds the
/// target of the operation at `j`.
pub open spec fn parent_precedes(ops: Seq<OpModel>, j: int) -> bool {
    exists|i: int| parent_at(ops, i, j)
}

/// No two items of one directory share a name.
pub open spec fn siblings_distinct(children: Seq<Child>) -> bool {
    forall|i: int, j: int|
        0 <= i < j < children.len() ==> (#[trigger] children[i]).name@ != (
        #[trigger] children[j]).name@
}

/// No directory of the tree holds two items of one name.
pub open spec fn distinct_names(entry: Entry) -> bool
    decreases entry,
{
    match entry {
        Entry::Directory { children } => {
            &&& siblings_distinct(children@)
            &&& forall|i: int|
                0 <= i < children@.len() ==> distinct_names((#[trigger] children@[i]).entry)
        },
        _ => true,
    }
}

/// The item reached from `entry` by stepping, at each directory on the way,
/// to the child at the next position in `steps`; `None` where a step leads
/// nowhere.
pub open spec fn descend(entry: Entry, steps: Seq<int>) -> Option<Entry>
    decreases steps.len(),
{
    if steps.len() == 0 {
        Some(entry)
    } else {
        match entry {
            Entry::Directory { children } => if 0 <= steps[0] < children@.len() {
                descend(children@[steps[0]].entry, steps.drop_first())
            } else {
                None
            },
            _ => None,
        }
    }
}

/// The names passed on the way that `steps` takes from `entry`.
pub open spec fn route(entry: Entry, steps: Seq<int>) -> Seq<Seq<char>>
    decreases steps.len(),
{
    if steps.len() == 0 {
        Seq::empty()
    } else {
        match entry {
            Entry::Directory { children } => if 0 <= steps[0] < children@.len() {
                seq![children@[steps[0]].name@] + route(
                    children@[steps[0]].entry,
                    steps.drop_first(),
                )
            } else {
                Seq::empty()
            },
            _ => Seq::empty(),
        }
    }
}

/// The source path of the item that `steps` leads to from the item at
/// `source`.
pub open spec fn source_of(source: Seq<char>, names: Seq<Seq<char>>) -> Seq<char>
    decreases names.len(),
{
    if names.len() == 0 {
        source
    } else {
        source_of(child_path(source, names[0]), names.drop_first())
    }
}

spec fn in_child(children: Seq<Child>, c: int, rel: Seq<Seq<char>>, path: Seq<Seq<char>>) -> bool {
    0 <= c < children.len() && under(rel.push(children[c].name@), path)
}

proof fn lemma_under_push(rel: Seq<Seq<char>>, name: Seq<char>, path: Seq<Seq<char>>)
    requires
        under(rel.push(name), path),
    ensures
        under(rel, path),
        path.len() > rel.len(),
        path[rel.len() as int] == name,
{
    let longer = rel.push(name);
    let head = path.subrange(0, longer.len() as int);
    assert(head[rel.len() as int] == name);
    assert forall|i: int| 0 <= i < rel.len() implies path.subrange(0, rel.len() as int)[i]
        == rel[i] by {
        assert(head[i] == longer[i]);
    }
    assert(path.subrange(0, rel.len() as int) =~= rel);
}

proof fn lemma_entry_shape(entry: Entry, source: Seq<char>, rel: Seq<Seq<char>>)
    ensures
        entry_ops(entry, source, rel).len() >= 1,
        entry_ops(entry, source, rel)[0] == (OpModel {
            kind: kind_of(entry),
            source,
            relative: rel,
        }),
        forall|k: int|
            0 <= k < entry_ops(entry, source, rel).len() ==> under(
                rel,
                (#[trigger] entry_ops(entry, source, rel)[k]).relative,
            ),
        forall|k: int|
            1 <= k < entry_ops(entry, source, rel).len() ==> (#[trigger] entry_ops(
                entry,
                source,
                rel,
            )[k]).relative.len() > rel.len(),
    decreases entry, 0nat,
{
    let ops = entry_ops(entry, source, rel);
    assert(rel.subrange(0, rel.len() as int) =~= rel);
    match entry {
        Entry::Directory { children } => {
            let inner = children_ops(children@, source, rel);
            lemma_children_shape(children@, source, rel);
            assert forall|k: int| 1 <= k < ops.len() implies under(rel, (#[trigger] ops[k]).relative)
                && ops[k].relative.len() > rel.len() by {
                assert(ops[k] == inner[k - 1]);
                let path = inner[k - 1].relative;
                let c = choose|c: int| in_child(children@, c, rel, path);
                lemma_under_push(rel, children@[c].name@, ops[k].relative);
            }
        },
        _ => {},
    }
}

proof fn lemma_children_shape(children: Seq<Child>, source: Seq<char>, rel: Seq<Seq<char>>)
    ensures
        forall|k: int|
            0 <= k < children_ops(children, source, rel).len() ==> exists|c: int|
                in_child(children, c, rel, (#[trigger] children_ops(children, source, rel)[k]).relative),
    decreases children, 1nat,
{
    if children.len() > 0 {
        let ops = children_ops(children, source, rel);
        let last = children.last();
        let head = children_ops(children.drop_last(), source, rel);
        let tail = entry_ops(last.entry, child_path(source, last.name@), rel.push(last.name@));
        lemma_children_shape(children.drop_last(), source, rel);
        lemma_entry_shape(last.entry, child_path(source, last.name@), rel.push(last.name@));
        assert forall|k: int| 0 <= k < ops.len() implies exists|c: int|
            in_child(children, c, rel, (#[trigger] ops[k]).relative) by {
            if k < head.len() {
                assert(ops[k] == head[k]);
                let c = choose|c: int| in_child(children.drop_last(), c, rel, head[k].relative);
                assert(children.drop_last()[c] == children[c]);
                assert(in_child(children, c, rel, ops[k].relative));
            } else {
                assert(ops[k] == tail[k - head.len()]);
                assert(in_child(children, children.len() - 1, rel, ops[k].relative));
            }
        }
    }
}

/// A plan stays where it is bound for: every operation of the plan of a
/// tree bound for `rel` goes to `rel` or below it, and only the first, the
/// root's own, to `rel` itself.
pub proof fn paths_stay_below(entry: Entry, source: Seq<char>, rel: Seq<Seq<char>>)
    ensures
        entry_ops(entry, source, rel).len() >= 1,
        entry_ops(entry, source, rel)[0].relative == rel,
        forall|k: int|
            0 <= k < entry_ops(entry, source, rel).len() ==> under(
                rel,
                (#[trigger] entry_ops(entry, source, rel)[k]).relative,
            ),
        forall|k: int|
            1 <= k < entry_ops(entry, source, rel).len() ==> (#[trigger] entry_ops(
                entry,
                source,
                rel,
            )[k]).relative.len() > rel.len(),
{
    lemma_entry_shape(entry, source, rel);
}

/// The operation at `k` is exactly `op`.
pub open spec fn planned_at(ops: Seq<OpModel>, k: int, op: OpModel) -> bool {
    0 <= k < ops.len() && ops[k] == op
}

/// The operation that rebuilds the item that `steps` leads to from `entry`,
/// when `entry` lies at `source` and is bound for `rel`.
pub open spec fn operation_for(
    entry: Entry,
    source: Seq<char>,
    rel: Seq<Seq<char>>,
    steps: Seq<int>,
) -> OpModel {
    OpModel {
        kind: kind_of(descend(entry, steps).unwrap()),
        source: source_of(source, route(entry, steps)),
        relative: rel + route(entry, steps),
    }
}

/// A directory is planned before everything that it holds: in the plan of a
/// tree, every operation but the first, which is the root's own, comes after
/// the operation that creates the directory it goes into.
pub proof fn parents_come_first(entry: Entry, source: Seq<char>, rel: Seq<Seq<char>>)
    ensures
        forall|j: int|
            1 <= j < entry_ops(entry, source, rel).len() ==> #[trigger] parent_precedes(
                entry_ops(entry, source, rel),
                j,
            ),
    decreases entry, 0nat,
{
    let ops = entry_ops(entry, source, rel);
    match entry {
        Entry::Directory { children } => {
            let inner = children_ops(children@, source, rel);
            lemma_children_parents(children@, source, rel);
            lemma_entry_shape(entry, source, rel);
            assert forall|j: int| 1 <= j < ops.len() implies #[trigger] parent_precedes(ops, j) by {
                let jj = j - 1;
                assert(ops[j] == inner[jj]);
                if inner[jj].relative.drop_last() == rel {
                    assert(parent_at(ops, 0, j));
                } else {
                    assert(parent_precedes(inner, jj));
                    let i = choose|i: int| parent_at(inner, i, jj);
                    assert(ops[i + 1] == inner[i]);
                    assert(parent_at(ops, i + 1, j));
                }
            }
        },
        _ => {},
    }
}

proof fn lemma_children_parents(children: Seq<Child>, source: Seq<char>, rel: Seq<Seq<char>>)
    ensures
        forall|j: int|
            0 <= j < children_ops(children, source, rel).len() ==> {
                &&& (#[trigger] children_ops(children, source, rel)[j]).relative.len() > 0
                &&& children_ops(children, source, rel)[j].relative.drop_last() == rel
                    || parent_precedes(children_ops(children, source, rel), j)
            },
    decreases children, 1nat,
{
    if children.len() > 0 {
        let ops = children_ops(children, source, rel);
        let last = children.last();
        let head = children_ops(children.drop_last(), source, rel);
        let tail = entry_ops(last.entry, child_path(source, last.name@), rel.push(last.name@));
        lemma_children_parents(children.drop_last(), source, rel);
        parents_come_first(last.entry, child_path(source, last.name@), rel.push(last.name@));
        lemma_entry_shape(last.entry, child_path(source, last.name@), rel.push(last.name@));
        assert forall|j: int| 0 <= j < ops.len() implies {
            &&& (#[trigger] ops[j]).relative.len() > 0
            &&& ops[j].relative.drop_last() == rel || parent_precedes(ops, j)
        } by {
            if j < head.len() {
                assert(ops[j] == head[j]);
                if head[j].relative.drop_last() != rel {
                    assert(parent_precedes(head, j));
                    let i = choose|i: int| parent_at(head, i, j);
                    assert(ops[i] == head[i]);
                    assert(parent_at(ops, i, j));
                }
            } else {
                let t = j - head.len();
                assert(ops[j] == tail[t]);
                if t == 0 {
                    assert(rel.push(last.name@).drop_last() =~= rel);
                } else {
                    assert(parent_precedes(tail, t));
                    let i = choose|i: int| parent_at(tail, i, t);
                    assert(ops[head.len() + i] == tail[i]);
                    assert(parent_at(ops, head.len() + i, j));
                }
            }
        }
    }
}

/// No destination path is planned twice: where no directory of the tree
/// holds two items of one name, the operations of its plan go to pairwise
/// different paths.
pub proof fn paths_are_unique(entry: Entry, source: Seq<char>, rel: Seq<Seq<char>>)
    requires
        distinct_names(entry),
    ensures
        forall|i: int, j: int|
            0 <= i < j < entry_ops(entry, source, rel).len() ==> (#[trigger] entry_ops(
                entry,
                source,
                rel,
            )[i]).relative != (#[trigger] entry_ops(entry, source, rel)[j]).relative,
    decreases entry, 0nat,
{
    let ops = entry_ops(entry, source, rel);
    match entry {
        Entry::Directory { children } => {
            let inner = children_ops(children@, source, rel);
            lemma_entry_shape(entry, source, rel);
            lemma_children_unique(children@, source, rel);
            assert forall|i: int, j: int| 0 <= i < j < ops.len() implies (#[trigger] ops[i]).relative
                != (#[trigger] ops[j]).relative by {
                if i > 0 {
                    assert(ops[i] == inner[i - 1]);
                    assert(ops[j] == inner[j - 1]);
                }
            }
        },
        _ => {},
    }
}

proof fn lemma_children_unique(children: Seq<Child>, source: Seq<char>, rel: Seq<Seq<char>>)
    requires
        siblings_distinct(children),
        forall|c: int| 0 <= c < children.len() ==> distinct_names((#[trigger] children[c]).entry),
    ensures
        forall|i: int, j: int|
            0 <= i < j < children_ops(children, source, rel).len() ==> (#[trigger] children_ops(
                children,
                source,
                rel,
            )[i]).relative != (#[trigger] children_ops(children, source, rel)[j]).relative,
    decreases children, 1nat,
{
    if children.len() > 0 {
        let ops = children_ops(children, source, rel);
        let last = children.last();
        let rest = children.drop_last();
        let head = children_ops(rest, source, rel);
        let tail = entry_ops(last.entry, child_path(source, last.name@), rel.push(last.name@));
        assert forall|i: int, j: int| 0 <= i < j < rest.len() implies (#[trigger] rest[i]).name@ != (
        #[trigger] rest[j]).name@ by {
            assert(rest[i] == children[i] && rest[j] == children[j]);
        }
        assert forall|c: int| 0 <= c < rest.len() implies distinct_names(
            (#[trigger] rest[c]).entry,
        ) by {
            assert(rest[c] == children[c]);
        }
        lemma_children_unique(rest, source, rel);
        paths_are_unique(last.entry, child_path(source, last.name@), rel.push(last.name@));
        lemma_children_shape(rest, source, rel);
        lemma_entry_shape(last.entry, child_path(source, last.name@), rel.push(last.name@));
        assert forall|i: int, j: int| 0 <= i < j < ops.len() implies (#[trigger] ops[i]).relative
            != (#[trigger] ops[j]).relative by {
            if j < head.len() {
                assert(ops[i] == head[i] && ops[j] == head[j]);
            } else if i >= head.len() {
                assert(ops[i] == tail[i - head.len()] && ops[j] == tail[j - head.len()]);
            } else {
                let p = head[i].relative;
                let q = tail[j - head.len()].relative;
                assert(ops[i] == head[i] && ops[j] == tail[j - head.len()]);
                let c = choose|c: int| in_child(rest, c, rel, p);
                lemma_under_push(rel, rest[c].name@, p);
                lemma_under_push(rel, last.name@, q);
                assert(rest[c] == children[c]);
                assert(last == children[children.len() - 1]);
            }
        }
    }
}

proof fn lemma_child_block(children: Seq<Child>, source: Seq<char>, rel: Seq<Seq<char>>, c: int)
    requires
        0 <= c < children.len(),
    ensures
        ({
            let offset = children_ops(children.take(c), source, rel).len();
            let block = entry_ops(
                children[c].entry,
                child_path(source, children[c].name@),
                rel.push(children[c].name@),
            );
            &&& offset + block.len() <= children_ops(children, source, rel).len()
            &&& forall|t: int|
                0 <= t < block.len() ==> children_ops(children, source, rel)[offset + t]
                    == #[trigger] block[t]
        }),
    decreases children.len(),
{
    if c == children.len() - 1 {
        assert(children.take(c) =~= children.drop_last());
    } else {
        lemma_child_block(children.drop_last(), source, rel, c);
        assert(children.drop_last().take(c) =~= children.take(c));
        assert(children.drop_last()[c] == children[c]);
    }
}

/// Nothing is left out: whatever item of the tree a walk from the root
/// reaches, be it a file, a link or a directory with nothing in it, the plan
/// holds the operation that rebuilds it, under the names the walk passed.
pub proof fn every_entry_is_planned(
    entry: Entry,
    source: Seq<char>,
    rel: Seq<Seq<char>>,
    steps: Seq<int>,
)
    requires
        descend(entry, steps) is Some,
    ensures
        exists|k: int|
            planned_at(entry_ops(entry, source, rel), k, operation_for(entry, source, rel, steps)),
    decreases steps.len(),
{
    let ops = entry_ops(entry, source, rel);
    let wanted = operation_for(entry, source, rel, steps);
    if steps.len() == 0 {
        assert(rel + Seq::<Seq<char>>::empty() =~= rel);
        assert(planned_at(ops, 0, wanted));
    } else {
        let children = entry->children;
        let c = steps[0];
        let child = children@[c];
        let rest = steps.drop_first();
        let below = child_path(source, child.name@);
        let block = entry_ops(child.entry, below, rel.push(child.name@));
        every_entry_is_planned(child.entry, below, rel.push(child.name@), rest);
        let found = operation_for(child.entry, below, rel.push(child.name@), rest);
        let k = choose|k: int| planned_at(block, k, found);
        let way = route(entry, steps);
        assert(way.drop_first() =~= route(child.entry, rest));
        assert(way[0] == child.name@);
        assert(rel + way =~= rel.push(child.name@) + route(child.entry, rest));
        assert(found == wanted);
        lemma_child_block(children@, source, rel, c);
        let offset = children_ops(children@.take(c), source, rel).len();
        let inner = children_ops(children@, source, rel);
        assert(inner[offset + k] == block[k]);
        assert(ops[1 + offset + k] == inner[offset + k]);
        assert(planned_at(ops, 1 + offset + k, wanted));
    }
}

spec fn from_child(
    children: Seq<Child>,
    source: Seq<char>,
    rel: Seq<Seq<char>>,
    op: OpModel,
    c: int,
    steps: Seq<int>,
) -> bool {
    &&& 0 <= c < children.len()
    &&& descend(children[c].entry, steps) is Some
    &&& op == operation_for(
        children[c].entry,
        child_path(source, children[c].name@),
        rel.push(children[c].name@),
        steps,
    )
}

/// `op` rebuilds the item that `steps` leads to from `entry`.
pub open spec fn from_entry(
    entry: Entry,
    source: Seq<char>,
    rel: Seq<Seq<char>>,
    op: OpModel,
    steps: Seq<int>,
) -> bool {
    descend(entry, steps) is Some && op == operation_for(entry, source, rel, steps)
}

/// Nothing is made up: every operation of a plan rebuilds an item that a
/// walk from the root reaches, under the names the walk passes.
pub proof fn every_operation_has_an_entry(
    entry: Entry,
    source: Seq<char>,
    rel: Seq<Seq<char>>,
    k: int,
)
    requires
        0 <= k < entry_ops(entry, source, rel).len(),
    ensures
        exists|steps: Seq<int>|
            from_entry(entry, source, rel, entry_ops(entry, source, rel)[k], steps),
    decreases entry, 0nat,
{
    let ops = entry_ops(entry, source, rel);
    if k == 0 {
        let none = Seq::<int>::empty();
        assert(rel + Seq::<Seq<char>>::empty() =~= rel);
        assert(from_entry(entry, source, rel, ops[0], none));
    } else {
        let children = entry->children;
        let inner = children_ops(children@, source, rel);
        let op = inner[k - 1];
        assert(ops[k] == op);
        lemma_children_have_entries(children@, source, rel, k - 1);
        let (c, below) = choose|c: int, below: Seq<int>|
            from_child(children@, source, rel, op, c, below);
        let child = children@[c];
        let steps = seq![c] + below;
        assert(steps[0] == c);
        assert(steps.drop_first() =~= below);
        let way = route(entry, steps);
        assert(way =~= seq![child.name@] + route(child.entry, below));
        assert(way.drop_first() =~= route(child.entry, below));
        assert(rel + way =~= rel.push(child.name@) + route(child.entry, below));
        assert(from_entry(entry, source, rel, ops[k], steps));
    }
}

proof fn lemma_children_have_entries(
    children: Seq<Child>,
    source: Seq<char>,
    rel: Seq<Seq<char>>,
    k: int,
)
    requires
        0 <= k < children_ops(children, source, rel).len(),
    ensures
        exists|c: int, steps: Seq<int>|
            from_child(children, source, rel, children_ops(children, source, rel)[k], c, steps),
    decreases children, 1nat,
{
    let ops = children_ops(children, source, rel);
    let last = children.last();
    let rest = children.drop_last();
    let head = children_ops(rest, source, rel);
    if k < head.len() {
        lemma_children_have_entries(rest, source, rel, k);
        let (c, steps) = choose|c: int, steps: Seq<int>|
            from_child(rest, source, rel, head[k], c, steps);
        assert(rest[c] == children[c]);
        assert(from_child(children, source, rel, ops[k], c, steps));
    } else {
        let below = child_path(source, last.name@);
        let tail = entry_ops(last.entry, below, rel.push(last.name@));
        let t = k - head.len();
        assert(ops[k] == tail[t]);
        let op = tail[t];
        every_operation_has_an_entry(last.entry, below, rel.push(last.name@), t);
        let steps = choose|steps: Seq<int>|
            from_entry(last.entry, below, rel.push(last.name@), op, steps);
        assert(from_child(children, source, rel, ops[k], children.len() - 1, steps));
    }
}

} // verus!

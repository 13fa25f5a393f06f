//! The ancestors of a snapshot.

use vstd::prelude::*;

use crate::iceberg::table::{Snapshot, TableMetadata};

verus! {

use crate::iceberg::table::{lemma_snapshot_position, snapshot_position};

/// The position of the parent of a snapshot, where it has one that exists.
pub open spec fn parent_position(snapshots: Seq<Snapshot>, at: int) -> Option<int> {
    match snapshots[at].parent_snapshot_id {
        Some(id) => snapshot_position(snapshots, id),
        None => None,
    }
}

/// The position of an ancestor: the first is the snapshot itself, the next its parent, and so
/// on.
pub open spec fn ancestor(snapshots: Seq<Snapshot>, head: Option<int>, depth: nat) -> Option<int>
    decreases depth,
{
    if depth == 0 {
        head
    } else {
        match ancestor(snapshots, head, (depth - 1) as nat) {
            Some(at) => parent_position(snapshots, at),
            None => None,
        }
    }
}

/// Whether the id is that of an ancestor.
pub open spec fn has_ancestor(snapshots: Seq<Snapshot>, head: Option<int>, id: i64) -> bool {
    exists|depth: nat|
        (#[trigger] ancestor(snapshots, head, depth)) matches Some(at) && snapshots[at].snapshot_id
            == id
}

/// Whether a position is one of a snapshot.
pub open spec fn in_range(snapshots: Seq<Snapshot>, at: Option<int>) -> bool {
    at matches Some(i) ==> 0 <= i < snapshots.len()
}

/// Ancestors are snapshots of the list, and those before one exist too.
pub proof fn lemma_ancestor(snapshots: Seq<Snapshot>, head: Option<int>, depth: nat, earlier: nat)
    requires
        in_range(snapshots, head),
        earlier <= depth,
    ensures
        in_range(snapshots, ancestor(snapshots, head, depth)),
        ancestor(snapshots, head, depth) is Some ==> ancestor(snapshots, head, earlier) is Some,
    decreases depth,
{
    if depth > 0 {
        let before = (depth - 1) as nat;
        lemma_ancestor(
            snapshots,
            head,
            before,
            if earlier < depth {
                earlier
            } else {
                before
            },
        );
        match ancestor(snapshots, head, before) {
            Some(at) => match snapshots[at].parent_snapshot_id {
                Some(id) => lemma_snapshot_position(snapshots, id),
                None => {},
            },
            None => {},
        }
    }
}

/// Where two ancestors are the same snapshot, so are those that follow them.
proof fn lemma_ancestors_repeat(
    snapshots: Seq<Snapshot>,
    head: Option<int>,
    a: nat,
    b: nat,
    further: nat,
)
    requires
        ancestor(snapshots, head, a) == ancestor(snapshots, head, b),
    ensures
        ancestor(snapshots, head, a + further) == ancestor(snapshots, head, b + further),
    decreases further,
{
    if further > 0 {
        lemma_ancestors_repeat(snapshots, head, a, b, (further - 1) as nat);
        assert((a + further - 1) as nat == a + (further - 1));
        assert((b + further - 1) as nat == b + (further - 1));
    }
}

/// More numbers than there are values for them are not all different.
proof fn lemma_pigeonhole(numbers: Seq<int>, bound: int)
    requires
        0 <= bound < numbers.len(),
        forall|i: int| 0 <= i < numbers.len() ==> 0 <= #[trigger] numbers[i] < bound,
    ensures
        exists|i: int, j: int|
            0 <= i < j < numbers.len() && #[trigger] numbers[i] == #[trigger] numbers[j],
{
    if forall|i: int, j: int|
        0 <= i < j < numbers.len() ==> #[trigger] numbers[i] != #[trigger] numbers[j] {
        assert(numbers.no_duplicates());
        numbers.unique_seq_to_set();
        let range = vstd::set_lib::set_int_range(0, bound);
        vstd::set_lib::lemma_int_range(0, bound);
        assert(numbers.to_set().subset_of(range)) by {
            assert forall|n: int| numbers.to_set().contains(n) implies range.contains(n) by {
                let i = choose|i: int| 0 <= i < numbers.len() && numbers[i] == n;
                assert(0 <= numbers[i] < bound);
            }
        }
        vstd::set_lib::lemma_len_subset(numbers.to_set(), range);
        assert(false);
    }
}

/// Every ancestor is found within as many steps as there are snapshots.
pub proof fn lemma_ancestors_are_near(snapshots: Seq<Snapshot>, head: Option<int>, depth: nat) -> (
    near: nat)
    requires
        in_range(snapshots, head),
        ancestor(snapshots, head, depth) is Some,
    ensures
        near <= depth,
        near < snapshots.len(),
        ancestor(snapshots, head, near) == ancestor(snapshots, head, depth),
    decreases depth,
{
    let count = snapshots.len();
    lemma_ancestor(snapshots, head, depth, depth);
    if depth < count {
        depth
    } else {
        let chain = Seq::new(
            (count + 1) as nat,
            |i: int| ancestor(snapshots, head, i as nat)->0,
        );
        assert forall|i: int| 0 <= i < chain.len() implies 0 <= #[trigger] chain[i] < count by {
            lemma_ancestor(snapshots, head, depth, i as nat);
            lemma_ancestor(snapshots, head, i as nat, i as nat);
        }
        lemma_pigeonhole(chain, count as int);
        let (a, b) = choose|a: int, b: int|
            0 <= a < b < chain.len() && #[trigger] chain[a] == #[trigger] chain[b];
        lemma_ancestor(snapshots, head, depth, a as nat);
        lemma_ancestor(snapshots, head, depth, b as nat);
        assert(ancestor(snapshots, head, a as nat) == ancestor(snapshots, head, b as nat));
        let further = (depth - b) as nat;
        lemma_ancestors_repeat(snapshots, head, a as nat, b as nat, further);
        assert(b as nat + further == depth);
        lemma_ancestors_are_near(snapshots, head, (a as nat + further) as nat)
    }
}

impl TableMetadata {
    /// The position of the parent of a snapshot, where it has one that exists.
    pub fn parent_index(&self, at: usize) -> (parent: Option<usize>)
        requires
            at < self.snapshots@.len(),
        ensures
            match parent {
                Some(i) => parent_position(self.snapshots@, at as int) == Some(i as int) && i
                    < self.snapshots@.len(),
                None => parent_position(self.snapshots@, at as int) is None,
            },
    {
        match self.snapshots[at].parent_snapshot_id {
            Some(id) => self.snapshot_index(id),
            None => None,
        }
    }
}

/// An optional position, as a number.
pub open spec fn position_view(at: Option<usize>) -> Option<int> {
    match at {
        Some(i) => Some(i as int),
        None => None,
    }
}

/// Whether `snapshot_id` is the current snapshot or one of its ancestors (walking
/// `parent_snapshot_id`), per the Iceberg rollback contract. The current snapshot is its own
/// ancestor; an empty table has no ancestors.
pub fn is_current_ancestor(metadata: &TableMetadata, snapshot_id: i64) -> (found: bool)
    ensures
        found == has_ancestor(metadata.snapshots@, metadata.current_position(), snapshot_id),
{
    let ghost snapshots = metadata.snapshots@;
    let ghost head = metadata.current_position();
    let mut current: Option<usize> = match metadata.current_snapshot_id {
        Some(id) => metadata.snapshot_index(id),
        None => None,
    };
    let count: usize = metadata.snapshots.len();
    for depth in 0..count
        invariant
            snapshots == metadata.snapshots@,
            head == metadata.current_position(),
            in_range(snapshots, head),
            count == snapshots.len(),
            position_view(current) == ancestor(snapshots, head, depth as nat),
            in_range(snapshots, position_view(current)),
            forall|d: nat|
                d < depth ==> ((#[trigger] ancestor(snapshots, head, d)) matches Some(at) ==> snapshots[at].snapshot_id
                    != snapshot_id),
    {
        match current {
            Some(at) => {
                if metadata.snapshots[at].snapshot_id == snapshot_id {
                    return true;
                }
                current = metadata.parent_index(at);
            },
            None => {},
        }
    }
    proof {
        if has_ancestor(snapshots, head, snapshot_id) {
            let depth = choose|depth: nat|
                (#[trigger] ancestor(snapshots, head, depth)) matches Some(at)
                    && snapshots[at].snapshot_id == snapshot_id;
            let near = lemma_ancestors_are_near(snapshots, head, depth);
            assert(ancestor(snapshots, head, near) == ancestor(snapshots, head, depth));
        }
    }
    false
}

/// The ancestors of a snapshot are the snapshot itself and those of its parent.
pub proof fn law_ancestors(snapshots: Seq<Snapshot>, at: int, id: i64)
    requires
        0 <= at < snapshots.len(),
    ensures
        has_ancestor(snapshots, None, id) == false,
        has_ancestor(snapshots, Some(at), id) <==> snapshots[at].snapshot_id == id || (
        snapshots[at].parent_snapshot_id matches Some(parent) && has_ancestor(
            snapshots,
            snapshot_position(snapshots, parent),
            id,
        )),
{
    assert forall|depth: nat| #[trigger] ancestor(snapshots, None, depth) is None by {
        lemma_nothing_has_no_ancestor(snapshots, depth);
    }
    let next = parent_position(snapshots, at);
    if has_ancestor(snapshots, Some(at), id) && snapshots[at].snapshot_id != id {
        let depth = choose|depth: nat|
            (#[trigger] ancestor(snapshots, Some(at), depth)) matches Some(i)
                && snapshots[i].snapshot_id == id;
        assert(depth > 0);
        lemma_ancestor_of_parent(snapshots, at, (depth - 1) as nat);
        assert(ancestor(snapshots, next, (depth - 1) as nat) == ancestor(
            snapshots,
            Some(at),
            depth,
        ));
        assert(has_ancestor(snapshots, next, id));
        assert(snapshots[at].parent_snapshot_id is Some) by {
            if next is None {
                assert(ancestor(snapshots, next, (depth - 1) as nat) is None);
            }
        }
    }
    if snapshots[at].snapshot_id == id {
        assert(ancestor(snapshots, Some(at), 0) == Some(at));
    }
    if snapshots[at].parent_snapshot_id is Some && has_ancestor(snapshots, next, id) {
        let depth = choose|depth: nat|
            (#[trigger] ancestor(snapshots, next, depth)) matches Some(i)
                && snapshots[i].snapshot_id == id;
        lemma_ancestor_of_parent(snapshots, at, depth);
        assert(ancestor(snapshots, Some(at), depth + 1) is Some);
    }
}

proof fn lemma_nothing_has_no_ancestor(snapshots: Seq<Snapshot>, depth: nat)
    ensures
        ancestor(snapshots, None, depth) is None,
    decreases depth,
{
    if depth > 0 {
        lemma_nothing_has_no_ancestor(snapshots, (depth - 1) as nat);
    }
}

proof fn lemma_ancestor_of_parent(snapshots: Seq<Snapshot>, at: int, depth: nat)
    ensures
        ancestor(snapshots, Some(at), depth + 1) == ancestor(
            snapshots,
            parent_position(snapshots, at),
            depth,
        ),
    decreases depth,
{
    if depth > 0 {
        lemma_ancestor_of_parent(snapshots, at, (depth - 1) as nat);
        assert((depth - 1) as nat + 1 == depth);
    } else {
        assert(ancestor(snapshots, Some(at), 0) == Some(at));
        assert((0nat + 1 - 1) as nat == 0nat);
        assert(ancestor(snapshots, Some(at), 0nat + 1) == parent_position(snapshots, at));
    }
}

} // verus!

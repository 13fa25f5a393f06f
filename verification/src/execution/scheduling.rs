use vstd::prelude::*;

use crate::execution::id::{TaskKey, WorkerId};

verus! {

/// Where the tasks of a stage must run.
#[derive(Debug, Clone, Copy, PartialEq, Eq, Structural)]
pub enum TaskPlacement {
    Driver,
    Worker,
}

/// Where the output streams of a task are kept.
#[derive(Debug, Clone, Copy, PartialEq, Eq, Structural)]
pub enum TaskOutputKind {
    Local,
    Remote,
}

#[derive(Debug, Clone, Copy, PartialEq, Eq, Structural)]
pub struct TaskSetEntry {
    pub key: TaskKey,
    pub output: TaskOutputKind,
}

/// The tasks that share one task slot.
#[derive(Debug)]
pub struct TaskSet {
    pub entries: Vec<TaskSetEntry>,
}

impl View for TaskSet {
    type V = Seq<TaskSetEntry>;

    open spec fn view(&self) -> Seq<TaskSetEntry> {
        self.entries@
    }
}

impl Clone for TaskSet {
    fn clone(&self) -> (set: TaskSet)
        ensures
            set@ == self@,
    {
        let entries = self.entries.clone();
        assert(entries@ =~= self.entries@);
        TaskSet { entries }
    }
}

/// The keys of the tasks in a task set, in order.
pub open spec fn set_keys(entries: Seq<TaskSetEntry>) -> Seq<TaskKey> {
    entries.map_values(|entry: TaskSetEntry| entry.key)
}

impl TaskSet {
    /// The keys of the tasks, in order.
    pub fn tasks(&self) -> (keys: Vec<TaskKey>)
        ensures
            keys@ == set_keys(self@),
    {
        let mut keys: Vec<TaskKey> = Vec::new();
        for i in 0..self.entries.len()
            invariant
                keys@ == set_keys(self@).take(i as int),
        {
            keys.push(self.entries[i].key);
            assert(keys@ =~= set_keys(self@).take(i + 1));
        }
        assert(keys@ =~= set_keys(self@));
        keys
    }

    /// Whether some task of the set has the given key.
    pub fn contains(&self, key: &TaskKey) -> (found: bool)
        ensures
            found == set_keys(self@).contains(*key),
    {
        for i in 0..self.entries.len()
            invariant
                forall|j: int| 0 <= j < i ==> set_keys(self@)[j] != *key,
        {
            if self.entries[i].key == *key {
                assert(set_keys(self@)[i as int] == *key);
                return true;
            }
        }
        false
    }
}

/// Task sets that must be scheduled together or not at all.
#[derive(Debug)]
pub struct TaskRegion {
    pub tasks: Vec<(TaskPlacement, TaskSet)>,
}

impl View for TaskRegion {
    type V = Seq<(TaskPlacement, Seq<TaskSetEntry>)>;

    open spec fn view(&self) -> Seq<(TaskPlacement, Seq<TaskSetEntry>)> {
        self.tasks@.map_values(|task: (TaskPlacement, TaskSet)| (task.0, task.1@))
    }
}

/// Whether a region schedules the task with the given key.
pub open spec fn region_contains(
    region: Seq<(TaskPlacement, Seq<TaskSetEntry>)>,
    key: TaskKey,
) -> bool {
    exists|i: int| 0 <= i < region.len() && #[trigger] set_keys(region[i].1).contains(key)
}

/// How many task sets of a region need a worker task slot.
pub open spec fn worker_sets(region: Seq<(TaskPlacement, Seq<TaskSetEntry>)>) -> nat
    decreases region.len(),
{
    if region.len() == 0 {
        0
    } else {
        worker_sets(region.drop_last()) + if region.last().0 is Worker {
            1nat
        } else {
            0nat
        }
    }
}

impl TaskRegion {
    /// Whether the region schedules the task with the given key.
    pub fn contains(&self, key: &TaskKey) -> (found: bool)
        ensures
            found == region_contains(self@, *key),
    {
        for i in 0..self.tasks.len()
            invariant
                forall|j: int|
                    0 <= j < i ==> !(#[trigger] set_keys(self@[j].1).contains(*key)),
        {
            assert(self@[i as int].1 == self.tasks@[i as int].1@);
            if self.tasks[i].1.contains(key) {
                return true;
            }
        }
        false
    }

    /// How many task sets of the region need a worker task slot.
    pub fn worker_set_count(&self) -> (count: usize)
        ensures
            count == worker_sets(self@),
            count <= self@.len(),
    {
        let mut count: usize = 0;
        for i in 0..self.tasks.len()
            invariant
                count == worker_sets(self@.take(i as int)),
                count <= i,
        {
            let ghost prefix = self@.take(i + 1);
            assert(prefix.drop_last() =~= self@.take(i as int));
            assert(prefix.last().0 == self.tasks@[i as int].0);
            if matches!(self.tasks[i].0, TaskPlacement::Worker) {
                count = count + 1;
            }
        }
        assert(self@.take(self@.len() as int) =~= self@);
        count
    }
}

/// Where a task set runs.
#[derive(Debug, Clone, Copy, PartialEq, Eq, Structural)]
pub enum TaskAssignment {
    Driver,
    Worker { worker_id: WorkerId, slot: usize },
}

#[derive(Debug)]
pub struct TaskSetAssignment {
    pub set: TaskSet,
    pub assignment: TaskAssignment,
}

impl View for TaskSetAssignment {
    type V = (Seq<TaskSetEntry>, TaskAssignment);

    open spec fn view(&self) -> (Seq<TaskSetEntry>, TaskAssignment) {
        (self.set@, self.assignment)
    }
}

/// A process that owned local task streams.
#[derive(Debug, Clone, Copy, PartialEq, Eq, Hash, Structural)]
pub enum TaskStreamAssignment {
    Driver,
    Worker { worker_id: WorkerId },
}

} // verus!

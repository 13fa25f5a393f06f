use vstd::prelude::*;

use crate::execution::id::WorkerId;
use crate::execution::scheduling::{TaskAssignment, TaskPlacement, TaskRegion, TaskSetAssignment};

verus! {

use crate::execution::scheduling::{worker_sets, TaskSetEntry};

/// The free slots of each worker, as the order in which they are handed out: worker by
/// worker, and each worker's slots from the last to the first.
pub open spec fn slot_order(slots: Seq<(WorkerId, Seq<usize>)>) -> Seq<(WorkerId, usize)>
    decreases slots.len(),
{
    if slots.len() == 0 {
        Seq::empty()
    } else {
        slots[0].1.reverse().map_values(|slot: usize| (slots[0].0, slot)) + slot_order(
            slots.drop_first(),
        )
    }
}

/// A region and the slots for its worker task sets, taken in order: where each task set
/// runs.
pub open spec fn placed(
    region: Seq<(TaskPlacement, Seq<TaskSetEntry>)>,
    order: Seq<(WorkerId, usize)>,
) -> Seq<(Seq<TaskSetEntry>, TaskAssignment)> {
    Seq::new(
        region.len(),
        |i: int|
            (
                region[i].1,
                match region[i].0 {
                    TaskPlacement::Driver => TaskAssignment::Driver,
                    TaskPlacement::Worker => {
                        let (worker_id, slot) = order[worker_sets(region.take(i)) as int];
                        TaskAssignment::Worker { worker_id, slot }
                    },
                },
            ),
    )
}

/// Task set assignments, by their contents.
pub open spec fn assignments_view(assignments: Seq<TaskSetAssignment>) -> Seq<
    (Seq<TaskSetEntry>, TaskAssignment),
> {
    assignments.map_values(|assignment: TaskSetAssignment| assignment@)
}

/// A worker's list of slots, by its contents.
pub open spec fn slots_of(slots: Seq<(WorkerId, Vec<usize>)>) -> Seq<(WorkerId, Seq<usize>)> {
    slots.map_values(|entry: (WorkerId, Vec<usize>)| (entry.0, entry.1@))
}

/// Assigns task regions to driver or worker slots, consuming available slots as tasks are
/// placed.
pub struct TaskSlotAssigner {
    /// The available task slots on workers.
    slots: Vec<(WorkerId, Vec<usize>)>,
}

impl View for TaskSlotAssigner {
    type V = Seq<(WorkerId, usize)>;

    /// The slots that are left, in the order in which they are handed out.
    closed spec fn view(&self) -> Seq<(WorkerId, usize)> {
        slot_order(slots_of(self.slots@))
    }
}

/// Workers without a free slot hand out nothing.
proof fn lemma_empty_prefix(slots: Seq<(WorkerId, Seq<usize>)>, n: int)
    requires
        0 <= n <= slots.len(),
        forall|i: int| 0 <= i < n ==> (#[trigger] slots[i]).1.len() == 0,
    ensures
        slot_order(slots) == slot_order(slots.skip(n)),
    decreases n,
{
    if n > 0 {
        lemma_empty_prefix(slots.drop_first(), n - 1);
        assert(slots.drop_first().skip(n - 1) =~= slots.skip(n));
        assert(slot_order(slots) =~= slot_order(slots.drop_first()));
    } else {
        assert(slots.skip(0) =~= slots);
    }
}

/// Taking the last slot of the first worker that has one takes the first of the order.
proof fn lemma_pop(slots: Seq<(WorkerId, Seq<usize>)>, n: int)
    requires
        0 <= n < slots.len(),
        forall|i: int| 0 <= i < n ==> (#[trigger] slots[i]).1.len() == 0,
        slots[n].1.len() > 0,
    ensures
        slot_order(slots).len() > 0,
        slot_order(slots)[0] == (slots[n].0, slots[n].1.last()),
        slot_order(slots.update(n, (slots[n].0, slots[n].1.drop_last()))) == slot_order(
            slots,
        ).drop_first(),
{
    let (id, free) = slots[n];
    let next = slots.update(n, (id, free.drop_last()));
    lemma_empty_prefix(slots, n);
    lemma_empty_prefix(next, n);
    let tail = slots.skip(n);
    let next_tail = next.skip(n);
    assert(tail.drop_first() =~= next_tail.drop_first());
    let head = free.reverse().map_values(|slot: usize| (id, slot));
    let next_head = free.drop_last().reverse().map_values(|slot: usize| (id, slot));
    assert(head.drop_first() =~= next_head);
    let rest = slot_order(tail.drop_first());
    assert(slot_order(tail) == head + rest);
    assert(slot_order(next_tail) == next_head + rest);
    assert((head + rest).drop_first() =~= head.drop_first() + rest);
    assert(head[0] == (id, free.last()));
}

impl TaskSlotAssigner {
    pub fn new(slots: Vec<(WorkerId, Vec<usize>)>) -> (assigner: TaskSlotAssigner)
        ensures
            assigner@ == slot_order(slots_of(slots@)),
    {
        TaskSlotAssigner { slots }
    }

    /// Takes the next free slot, where one is left.
    pub fn next(&mut self) -> (slot: Option<(WorkerId, usize)>)
        ensures
            old(self)@.len() == 0 ==> slot is None && final(self)@ == old(self)@,
            old(self)@.len() > 0 ==> slot == Some(old(self)@[0]) && final(self)@ == old(
                self,
            )@.drop_first(),
    {
        let workers: usize = self.slots.len();
        for i in 0..workers
            invariant
                *self == *old(self),
                workers == self.slots@.len(),
                forall|j: int| 0 <= j < i ==> (#[trigger] self.slots@[j]).1@.len() == 0,
        {
            let ghost slots = slots_of(self.slots@);
            let ghost before = self.slots@;
            let worker_id = self.slots[i].0;
            if self.slots[i].1.len() > 0 {
                proof {
                    assert forall|j: int| 0 <= j < i implies (#[trigger] slots[j]).1.len() == 0 by {
                        assert(self.slots@[j].1@.len() == 0);
                    }
                    lemma_pop(slots, i as int);
                }
                let popped = self.slots[i].1.pop();
                match popped {
                    Some(slot) => {
                        assert(slots_of(self.slots@) =~= slots.update(
                            i as int,
                            (slots[i as int].0, slots[i as int].1.drop_last()),
                        ));
                        return Some((worker_id, slot));
                    },
                    None => {},
                }
            }
        }
        proof {
            let slots = slots_of(self.slots@);
            assert forall|j: int| 0 <= j < slots.len() implies (#[trigger] slots[j]).1.len()
                == 0 by {
                assert(self.slots@[j].1@.len() == 0);
            }
            lemma_empty_prefix(slots, slots.len() as int);
        }
        None
    }

    /// Places all task sets of a region, or none: the region comes back where the free
    /// slots do not suffice for its worker task sets. No slot is left then.
    pub fn try_assign_task_region(&mut self, region: TaskRegion) -> (result: Result<
        Vec<TaskSetAssignment>,
        TaskRegion,
    >)
        ensures
            result is Ok <==> worker_sets(region@) <= old(self)@.len(),
            result matches Ok(assignments) ==> assignments_view(assignments@) == placed(
                region@,
                old(self)@,
            ) && final(self)@ == old(self)@.skip(worker_sets(region@) as int),
            result matches Err(r) ==> r == region && final(self)@.len() == 0,
    {
        let mut assignments: Vec<TaskSetAssignment> = Vec::new();
        let ghost order = self@;
        for i in 0..region.tasks.len()
            invariant
                order == old(self)@,
                worker_sets(region@.take(i as int)) <= order.len(),
                self@ == order.skip(worker_sets(region@.take(i as int)) as int),
                assignments@.len() == i,
                forall|j: int|
                    0 <= j < i ==> (#[trigger] assignments@[j])@ == placed(region@, order)[j],
        {
            proof {
                assert(region@.take(i + 1).drop_last() =~= region@.take(i as int));
                assert(region@.take(i + 1).last() == region@[i as int]);
                assert(region@[i as int] == (region.tasks@[i as int].0, region.tasks@[i as int].1@));
            }
            let set = region.tasks[i].1.clone();
            match region.tasks[i].0 {
                TaskPlacement::Driver => {
                    assignments.push(TaskSetAssignment { set, assignment: TaskAssignment::Driver });
                },
                TaskPlacement::Worker => {
                    match self.next() {
                        Some((worker_id, slot)) => {
                            assert(order.skip(
                                worker_sets(region@.take(i as int)) as int,
                            ).drop_first() =~= order.skip(
                                worker_sets(region@.take(i + 1)) as int,
                            ));
                            assignments.push(
                                TaskSetAssignment {
                                    set,
                                    assignment: TaskAssignment::Worker { worker_id, slot },
                                },
                            );
                        },
                        None => {
                            proof {
                                lemma_worker_sets_prefix(region@, i + 1);
                            }
                            return Err(region);
                        },
                    }
                },
            }
        }
        assert(region@.take(region@.len() as int) =~= region@);
        assert(assignments_view(assignments@) =~= placed(region@, order));
        Ok(assignments)
    }
}

/// A prefix of a region needs no more slots than the region.
proof fn lemma_worker_sets_prefix(region: Seq<(TaskPlacement, Seq<TaskSetEntry>)>, n: int)
    requires
        0 <= n <= region.len(),
    ensures
        worker_sets(region.take(n)) <= worker_sets(region),
    decreases region.len() - n,
{
    if n < region.len() {
        lemma_worker_sets_prefix(region, n + 1);
        assert(region.take(n + 1).drop_last() =~= region.take(n));
    } else {
        assert(region.take(n) =~= region);
    }
}

} // verus!

use std::collections::VecDeque;

use indexmap::IndexMap;
use vstd::prelude::*;

use crate::execution::id::{JobId, TaskKey, WorkerId};
use crate::execution::scheduling::{
    TaskAssignment, TaskRegion, TaskSet, TaskSetAssignment, TaskStreamAssignment,
};
use crate::execution::slot_assigner::TaskSlotAssigner;
use crate::execution::state::{DriverResource, TaskSlot, WorkerResource};
use crate::execution::worker_map::{
    workers_contains, workers_get, workers_get_index, workers_get_index_mut, workers_get_mut,
    workers_insert, workers_len, workers_new, workers_shift_remove,
};

verus! {

use crate::assoc::{
    distinct_keys, dropped, has_key, key_index, lemma_dropped, lemma_key_index, lemma_map_values,
    lemma_stored, stored, value_of,
};
use crate::execution::scheduling::{
    region_contains, set_keys, worker_sets, TaskOutputKind, TaskPlacement, TaskSetEntry,
};
use crate::execution::slot_assigner::{assignments_view, placed, slot_order, slots_of};
use crate::execution::state::{
    any_produced_by, fresh_worker, slots_view, with_producers, with_tasks, without_task,
    worker_idle, worker_owns_streams, worker_released, worker_with_set, worker_with_streams,
    worker_without_task, DriverView, WorkerView,
};
use crate::execution::stream_set::released;
use crate::execution::worker_map::worker_entries;

/// The worker budget of a session.
#[derive(Debug, Clone, Copy, PartialEq, Eq, Structural)]
pub struct TaskAssignerOptions {
    /// How many workers to start with the session.
    pub worker_initial_count: usize,
    /// How many task slots each worker has.
    pub worker_task_slots: usize,
    /// How many workers may live at once; zero is no limit.
    pub worker_max_count: usize,
}

impl TaskAssignerOptions {
    pub fn for_test(
        worker_initial_count: usize,
        worker_task_slots: usize,
        worker_max_count: usize,
    ) -> (options: TaskAssignerOptions)
        ensures
            options == (TaskAssignerOptions {
                worker_initial_count,
                worker_task_slots,
                worker_max_count,
            }),
    {
        TaskAssignerOptions { worker_initial_count, worker_task_slots, worker_max_count }
    }
}

/// A region, by its contents.
pub type RegionView = Seq<(TaskPlacement, Seq<TaskSetEntry>)>;

/// What the scheduler knows.
#[verifier::ext_equal]
pub struct TaskAssignerView {
    pub options: TaskAssignerOptions,
    /// What runs on the driver, and the streams that it knows of.
    pub driver: DriverView,
    /// The live workers, in the order in which they were requested.
    pub workers: Seq<(u64, WorkerView)>,
    /// Where each task was placed last.
    pub assignments: Seq<(TaskKey, TaskAssignment)>,
    /// The regions that wait to be scheduled, first come first.
    pub queue: Seq<RegionView>,
}

/// Whether a worker that has registered has the given number of task slots.
pub open spec fn has_slots(worker: WorkerView, count: nat) -> bool {
    worker matches WorkerView::Active { slots, .. } ==> slots.len() == count
}

impl TaskAssignerView {
    /// No worker is tracked twice, no task is placed twice, and every registered worker has as
    /// many task slots as the options say.
    pub open spec fn wf(self) -> bool {
        &&& distinct_keys(self.workers)
        &&& distinct_keys(self.assignments)
        &&& forall|i: int|
            0 <= i < self.workers.len() ==> has_slots(
                (#[trigger] self.workers[i]).1,
                self.options.worker_task_slots as nat,
            )
    }
}

/// The tasks that run on a worker, slot by slot; none on one that has not registered.
pub open spec fn worker_tasks(view: TaskAssignerView, id: u64) -> Seq<TaskKey> {
    match value_of(view.workers, id) {
        Some(WorkerView::Active { slots, .. }) => slot_tasks(slots),
        _ => Seq::empty(),
    }
}

/// How many worker task slots the waiting regions need.
pub open spec fn enqueued_sets(queue: Seq<RegionView>) -> nat
    decreases queue.len(),
{
    if queue.len() == 0 {
        0
    } else {
        enqueued_sets(queue.drop_last()) + worker_sets(queue.last())
    }
}

/// The positions of the slots in which no task runs, among the first `n`.
pub open spec fn vacant_slots(slots: Seq<Seq<TaskKey>>, n: nat) -> Seq<usize>
    decreases n,
{
    if n == 0 {
        Seq::empty()
    } else {
        let init = vacant_slots(slots, (n - 1) as nat);
        if slots[n - 1].len() == 0 {
            init.push((n - 1) as usize)
        } else {
            init
        }
    }
}

/// The positions of the free slots of a worker.
pub open spec fn worker_vacant_slots(worker: WorkerView) -> Seq<usize> {
    match worker {
        WorkerView::Active { slots, .. } => vacant_slots(slots, slots.len()),
        WorkerView::Pending => Seq::empty(),
    }
}

/// The free slots of every worker.
pub open spec fn free_slots(workers: Seq<(u64, WorkerView)>) -> Seq<(WorkerId, Seq<usize>)> {
    workers.map_values(
        |entry: (u64, WorkerView)| (WorkerId(entry.0), worker_vacant_slots(entry.1)),
    )
}

/// How many slots are free over all workers.
pub open spec fn vacant_count(workers: Seq<(u64, WorkerView)>) -> nat
    decreases workers.len(),
{
    if workers.len() == 0 {
        0
    } else {
        vacant_count(workers.drop_last()) + worker_vacant_slots(workers.last().1).len()
    }
}

/// How many workers have been requested and have not registered.
pub open spec fn pending_count(workers: Seq<(u64, WorkerView)>) -> nat
    decreases workers.len(),
{
    if workers.len() == 0 {
        0
    } else {
        pending_count(workers.drop_last()) + if workers.last().1 is Pending {
            1nat
        } else {
            0nat
        }
    }
}

/// How many workers have registered.
pub open spec fn active_count(workers: Seq<(u64, WorkerView)>) -> nat {
    (workers.len() - pending_count(workers)) as nat
}

/// How many more workers the budget allows.
pub open spec fn worker_budget(view: TaskAssignerView) -> int {
    if view.options.worker_max_count == 0 {
        usize::MAX as int
    } else if view.options.worker_max_count >= view.workers.len() {
        view.options.worker_max_count - view.workers.len()
    } else {
        0
    }
}

/// How many workers are wanted for the slots that the waiting regions lack.
pub open spec fn wanted_workers(view: TaskAssignerView) -> int {
    let lacking = enqueued_sets(view.queue) - vacant_count(view.workers);
    if lacking <= 0 {
        0
    } else {
        (lacking + view.options.worker_task_slots - 1) / view.options.worker_task_slots as int
    }
}

pub open spec fn lesser(a: int, b: int) -> int {
    if a <= b {
        a
    } else {
        b
    }
}

/// The scheduler after a spawn is requested. A worker that is tracked already stays as it
/// is.
pub open spec fn pending_added(view: TaskAssignerView, id: u64) -> TaskAssignerView {
    TaskAssignerView {
        workers: if has_key(view.workers, id) {
            view.workers
        } else {
            view.workers.push((id, WorkerView::Pending))
        },
        ..view
    }
}

/// The scheduler after a worker registers. Only a pending worker changes.
pub open spec fn worker_activated(view: TaskAssignerView, id: u64) -> TaskAssignerView {
    TaskAssignerView {
        workers: if value_of(view.workers, id) == Some(WorkerView::Pending) {
            stored(view.workers, id, fresh_worker(view.options.worker_task_slots))
        } else {
            view.workers
        },
        ..view
    }
}

/// The scheduler after a worker is gone.
pub open spec fn worker_gone(view: TaskAssignerView, id: u64) -> TaskAssignerView {
    TaskAssignerView { workers: dropped(view.workers, id), ..view }
}

/// How many workers to spawn for the waiting regions, within the budget.
pub open spec fn requested_workers(view: TaskAssignerView) -> int {
    lesser(wanted_workers(view), worker_budget(view))
}

/// How many workers are missing to the initial count of live ones.
pub open spec fn missing_workers(view: TaskAssignerView) -> int {
    if view.options.worker_initial_count >= view.workers.len() {
        view.options.worker_initial_count - view.workers.len()
    } else {
        0
    }
}

/// How many workers to spawn with the session: those that are missing, within the budget where
/// there is one.
pub open spec fn requested_initial_workers(view: TaskAssignerView) -> int {
    if view.options.worker_max_count == 0 {
        missing_workers(view)
    } else {
        lesser(missing_workers(view), worker_budget(view))
    }
}

/// The scheduler after the local streams of a job (or of one of its stages) are released.
pub open spec fn local_streams_released(
    view: TaskAssignerView,
    job_id: u64,
    stage: Option<usize>,
) -> TaskAssignerView {
    TaskAssignerView {
        driver: DriverView {
            local_streams: released(view.driver.local_streams, job_id, stage),
            ..view.driver
        },
        workers: workers_released(view.workers, job_id, stage),
        ..view
    }
}

/// The scheduler after the regions that schedule a task are dropped from the queue.
pub open spec fn task_excluded(view: TaskAssignerView, key: TaskKey) -> TaskAssignerView {
    TaskAssignerView { queue: view.queue.filter(without_region_of(key)), ..view }
}

/// The placements that [`TaskAssigner::assign_tasks`] makes.
pub open spec fn placements(view: TaskAssignerView) -> Seq<(Seq<TaskSetEntry>, TaskAssignment)> {
    queue_placed(view.queue, slot_order(free_slots(view.workers)))
}

/// How many regions at the front of the queue [`TaskAssigner::assign_tasks`] places.
pub open spec fn placed_regions(view: TaskAssignerView) -> nat {
    placeable(view.queue, slot_order(free_slots(view.workers)))
}

/// The scheduler after the placements are made.
pub open spec fn tasks_assigned(view: TaskAssignerView) -> TaskAssignerView {
    all_started(
        TaskAssignerView { queue: view.queue.skip(placed_regions(view) as int), ..view },
        placements(view),
    )
}

/// How many regions at the front of the queue can be placed, one after the other, with the
/// free slots.
pub open spec fn placeable(queue: Seq<RegionView>, order: Seq<(WorkerId, usize)>) -> nat
    decreases queue.len(),
{
    if queue.len() == 0 || worker_sets(queue[0]) > order.len() {
        0
    } else {
        1 + placeable(queue.drop_first(), order.skip(worker_sets(queue[0]) as int))
    }
}

/// Where the task sets of those regions are placed.
pub open spec fn queue_placed(queue: Seq<RegionView>, order: Seq<(WorkerId, usize)>) -> Seq<
    (Seq<TaskSetEntry>, TaskAssignment),
>
    decreases queue.len(),
{
    if queue.len() == 0 || worker_sets(queue[0]) > order.len() {
        Seq::empty()
    } else {
        placed(queue[0], order) + queue_placed(
            queue.drop_first(),
            order.skip(worker_sets(queue[0]) as int),
        )
    }
}

/// The placements after several tasks are placed alike.
pub open spec fn recorded(
    assignments: Seq<(TaskKey, TaskAssignment)>,
    keys: Seq<TaskKey>,
    assignment: TaskAssignment,
) -> Seq<(TaskKey, TaskAssignment)>
    decreases keys.len(),
{
    if keys.len() == 0 {
        assignments
    } else {
        stored(recorded(assignments, keys.drop_last(), assignment), keys.last(), assignment)
    }
}

/// The scheduler after a task set starts where it is placed.
pub open spec fn started(
    view: TaskAssignerView,
    placement: (Seq<TaskSetEntry>, TaskAssignment),
) -> TaskAssignerView {
    let (entries, assignment) = placement;
    match assignment {
        TaskAssignment::Driver => TaskAssignerView {
            driver: DriverView {
                tasks: with_tasks(view.driver.tasks, set_keys(entries)),
                ..view.driver
            },
            assignments: recorded(view.assignments, set_keys(entries), assignment),
            ..view
        },
        TaskAssignment::Worker { worker_id, slot } => if has_key(view.workers, worker_id.0) {
            let i = key_index(view.workers, worker_id.0);
            TaskAssignerView {
                workers: view.workers.update(
                    i,
                    (worker_id.0, worker_with_set(view.workers[i].1, slot, entries)),
                ),
                assignments: recorded(view.assignments, set_keys(entries), assignment),
                ..view
            }
        } else {
            view
        },
    }
}

/// The scheduler after several task sets start where they are placed.
pub open spec fn all_started(
    view: TaskAssignerView,
    placements: Seq<(Seq<TaskSetEntry>, TaskAssignment)>,
) -> TaskAssignerView
    decreases placements.len(),
{
    if placements.len() == 0 {
        view
    } else {
        started(all_started(view, placements.drop_last()), placements.last())
    }
}

/// The scheduler after the streams of a placed task set are tracked: remote streams by the
/// driver, local ones by the process that runs the task set.
pub open spec fn streams_tracked(
    view: TaskAssignerView,
    placement: (Seq<TaskSetEntry>, TaskAssignment),
) -> TaskAssignerView {
    let (entries, assignment) = placement;
    let driver = DriverView {
        remote_streams: with_producers(
            view.driver.remote_streams,
            entries,
            TaskOutputKind::Remote,
        ),
        ..view.driver
    };
    match assignment {
        TaskAssignment::Driver => TaskAssignerView {
            driver: DriverView {
                local_streams: with_producers(
                    driver.local_streams,
                    entries,
                    TaskOutputKind::Local,
                ),
                ..driver
            },
            ..view
        },
        TaskAssignment::Worker { worker_id, .. } => if has_key(view.workers, worker_id.0) {
            let i = key_index(view.workers, worker_id.0);
            TaskAssignerView {
                driver,
                workers: view.workers.update(
                    i,
                    (worker_id.0, worker_with_streams(view.workers[i].1, entries)),
                ),
                ..view
            }
        } else {
            TaskAssignerView { driver, ..view }
        },
    }
}

/// The scheduler after the streams of several placed task sets are tracked.
pub open spec fn all_streams_tracked(
    view: TaskAssignerView,
    placements: Seq<(Seq<TaskSetEntry>, TaskAssignment)>,
) -> TaskAssignerView
    decreases placements.len(),
{
    if placements.len() == 0 {
        view
    } else {
        streams_tracked(all_streams_tracked(view, placements.drop_last()), placements.last())
    }
}

/// The workers that own local streams of a job (or of one of its stages), in order.
pub open spec fn owning_workers(
    workers: Seq<(u64, WorkerView)>,
    job_id: u64,
    stage: Option<usize>,
) -> Seq<TaskStreamAssignment>
    decreases workers.len(),
{
    if workers.len() == 0 {
        Seq::empty()
    } else {
        let init = owning_workers(workers.drop_last(), job_id, stage);
        if worker_owns_streams(workers.last().1, job_id, stage) {
            init.push(TaskStreamAssignment::Worker { worker_id: WorkerId(workers.last().0) })
        } else {
            init
        }
    }
}

/// The workers after the local streams of a job (or of one of its stages) are released.
pub open spec fn workers_released(
    workers: Seq<(u64, WorkerView)>,
    job_id: u64,
    stage: Option<usize>,
) -> Seq<(u64, WorkerView)> {
    workers.map_values(
        |entry: (u64, WorkerView)| (entry.0, worker_released(entry.1, job_id, stage)),
    )
}

/// The tasks in the slots of a worker, slot by slot.
pub open spec fn slot_tasks(slots: Seq<Seq<TaskKey>>) -> Seq<TaskKey>
    decreases slots.len(),
{
    if slots.len() == 0 {
        Seq::empty()
    } else {
        slot_tasks(slots.drop_last()) + slots.last()
    }
}

/// The regions that do not schedule the task with the given key.
pub open spec fn without_region_of(key: TaskKey) -> spec_fn(RegionView) -> bool {
    |region: RegionView| !region_contains(region, key)
}

/// A queue of regions, by its contents.
pub open spec fn queue_view(queue: Seq<TaskRegion>) -> Seq<RegionView> {
    queue.map_values(|region: TaskRegion| region@)
}

/// The workers, by their contents.
pub open spec fn workers_view(entries: Seq<(u64, WorkerResource)>) -> Seq<(u64, WorkerView)> {
    entries.map_values(worker_entry_view())
}

/// A worker with its id, by its contents.
pub open spec fn worker_entry_view() -> spec_fn((u64, WorkerResource)) -> (u64, WorkerView) {
    |entry: (u64, WorkerResource)| (entry.0, entry.1@)
}

/// Schedules task regions on the driver and the workers within a worker budget.
pub struct TaskAssigner {
    options: TaskAssignerOptions,
    driver: DriverResource,
    workers: IndexMap<u64, WorkerResource>,
    task_assignments: Vec<(TaskKey, TaskAssignment)>,
    task_queue: VecDeque<TaskRegion>,
}

impl View for TaskAssigner {
    type V = TaskAssignerView;

    closed spec fn view(&self) -> TaskAssignerView {
        TaskAssignerView {
            options: self.options,
            driver: self.driver@,
            workers: workers_view(worker_entries(self.workers)),
            assignments: self.task_assignments@,
            queue: queue_view(self.task_queue@),
        }
    }
}

proof fn lemma_workers(entries: Seq<(u64, WorkerResource)>)
    ensures
        distinct_keys(workers_view(entries)) ==> distinct_keys(entries),
        distinct_keys(entries) ==> distinct_keys(workers_view(entries)),
        forall|k: u64| #[trigger] has_key(workers_view(entries), k) == has_key(entries, k),
        forall|k: u64|
            distinct_keys(entries) && has_key(entries, k) ==> #[trigger] key_index(
                workers_view(entries),
                k,
            ) == key_index(entries, k),
{
    lemma_map_values(entries, worker_entry_view());
    let mapped = workers_view(entries);
    if distinct_keys(mapped) {
        assert forall|i: int, j: int|
            0 <= i < entries.len() && 0 <= j < entries.len() && i != j implies (
        #[trigger] entries[i]).0 != (#[trigger] entries[j]).0 by {
            assert(mapped[i].0 != mapped[j].0);
        }
    }
}

proof fn lemma_pending_bound(workers: Seq<(u64, WorkerView)>)
    ensures
        pending_count(workers) <= workers.len(),
    decreases workers.len(),
{
    if workers.len() > 0 {
        lemma_pending_bound(workers.drop_last());
    }
}

proof fn lemma_vacant_count_prefix(workers: Seq<(u64, WorkerView)>, n: int)
    requires
        0 <= n <= workers.len(),
    ensures
        vacant_count(workers.take(n)) <= vacant_count(workers),
    decreases workers.len() - n,
{
    if n < workers.len() {
        lemma_vacant_count_prefix(workers, n + 1);
        assert(workers.take(n + 1).drop_last() =~= workers.take(n));
    } else {
        assert(workers.take(n) =~= workers);
    }
}

proof fn lemma_enqueued_prefix(queue: Seq<RegionView>, n: int)
    requires
        0 <= n <= queue.len(),
    ensures
        enqueued_sets(queue.take(n)) <= enqueued_sets(queue),
    decreases queue.len() - n,
{
    if n < queue.len() {
        lemma_enqueued_prefix(queue, n + 1);
        assert(queue.take(n + 1).drop_last() =~= queue.take(n));
    } else {
        assert(queue.take(n) =~= queue);
    }
}

/// The order of the slots of one worker more.
proof fn lemma_slot_order_push(slots: Seq<(WorkerId, Seq<usize>)>, entry: (WorkerId, Seq<usize>))
    ensures
        slot_order(slots.push(entry)) == slot_order(slots) + entry.1.reverse().map_values(
            |slot: usize| (entry.0, slot),
        ),
    decreases slots.len(),
{
    let f = |slot: usize| (entry.0, slot);
    if slots.len() == 0 {
        assert(slots.push(entry).drop_first() =~= slots);
        assert(slot_order(slots.push(entry)) =~= slot_order(slots) + entry.1.reverse().map_values(
            f,
        ));
    } else {
        lemma_slot_order_push(slots.drop_first(), entry);
        assert(slots.push(entry).drop_first() =~= slots.drop_first().push(entry));
        assert(slot_order(slots.push(entry)) =~= slot_order(slots) + entry.1.reverse().map_values(
            f,
        ));
    }
}

/// The positions of the free slots of a worker, computed.
fn vacant_slot_positions(slots: &Vec<TaskSlot>) -> (vacant: Vec<usize>)
    ensures
        vacant@ == vacant_slots(slots_view(slots@), slots@.len()),
{
    let mut vacant: Vec<usize> = Vec::new();
    for i in 0..slots.len()
        invariant
            vacant@ == vacant_slots(slots_view(slots@), i as nat),
    {
        assert(slots_view(slots@)[i as int] == slots@[i as int]@);
        if slots[i].is_vacant() {
            vacant.push(i);
        }
    }
    vacant
}

/// Where a task ends: where it was placed, unless its worker is gone.
pub open spec fn ended_at(view: TaskAssignerView, key: TaskKey) -> Option<TaskAssignment> {
    match value_of(view.assignments, key) {
        Some(TaskAssignment::Worker { worker_id, .. }) if !has_key(
            view.workers,
            worker_id.0,
        ) => None,
        assignment => assignment,
    }
}

/// The scheduler after a task has ended where it was placed.
pub open spec fn task_ended(view: TaskAssignerView, key: TaskKey) -> TaskAssignerView {
    match ended_at(view, key) {
        None => view,
        Some(TaskAssignment::Driver) => TaskAssignerView {
            driver: DriverView { tasks: without_task(view.driver.tasks, key), ..view.driver },
            ..view
        },
        Some(TaskAssignment::Worker { worker_id, slot }) => {
            let i = key_index(view.workers, worker_id.0);
            TaskAssignerView {
                workers: view.workers.update(
                    i,
                    (worker_id.0, worker_without_task(view.workers[i].1, slot, key)),
                ),
                ..view
            }
        },
    }
}

impl TaskAssigner {
    pub fn new(options: TaskAssignerOptions) -> (assigner: TaskAssigner)
        ensures
            assigner@ == (TaskAssignerView {
                options,
                driver: DriverView {
                    tasks: Seq::empty(),
                    local_streams: Seq::empty(),
                    remote_streams: Seq::empty(),
                },
                workers: Seq::empty(),
                assignments: Seq::empty(),
                queue: Seq::empty(),
            }),
            assigner@.wf(),
    {
        let assigner = TaskAssigner {
            options,
            driver: DriverResource::new(),
            workers: workers_new(),
            task_assignments: Vec::new(),
            task_queue: VecDeque::new(),
        };
        assert(assigner@.workers =~= Seq::<(u64, WorkerView)>::empty());
        assert(assigner@.queue =~= Seq::<RegionView>::empty());
        assigner
    }

    /// Number of workers whose spawn was requested but which have not yet registered.
    pub fn pending_worker_count(&self) -> (count: usize)
        ensures
            count == pending_count(self@.workers),
    {
        let n: usize = workers_len(&self.workers);
        let mut count: usize = 0;
        let mut i: usize = 0;
        while i < n
            invariant
                n == worker_entries(self.workers).len(),
                i <= n,
                count <= i,
                count == pending_count(self@.workers.take(i as int)),
            decreases n - i,
        {
            assert(self@.workers.take(i + 1).drop_last() =~= self@.workers.take(i as int));
            match workers_get_index(&self.workers, i) {
                Some((_, WorkerResource::Pending)) => {
                    count = count + 1;
                },
                _ => {},
            }
            i = i + 1;
        }
        assert(self@.workers.take(n as int) =~= self@.workers);
        count
    }

    /// Number of registered workers.
    pub fn active_worker_count(&self) -> (count: usize)
        ensures
            count == active_count(self@.workers),
    {
        let n: usize = workers_len(&self.workers);
        let mut count: usize = 0;
        let mut i: usize = 0;
        while i < n
            invariant
                n == worker_entries(self.workers).len(),
                i <= n,
                count == i - pending_count(self@.workers.take(i as int)),
            decreases n - i,
        {
            assert(self@.workers.take(i + 1).drop_last() =~= self@.workers.take(i as int));
            match workers_get_index(&self.workers, i) {
                Some((_, WorkerResource::Active { .. })) => {
                    count = count + 1;
                },
                _ => {},
            }
            i = i + 1;
        }
        assert(self@.workers.take(n as int) =~= self@.workers);
        count
    }

    /// Number of live workers (pending and active) charged against the maximum count.
    pub fn total_live_worker_count(&self) -> (count: usize)
        ensures
            count == self@.workers.len(),
    {
        proof {
            lemma_pending_bound(self@.workers);
        }
        let n: usize = workers_len(&self.workers);
        self.pending_worker_count() + self.active_worker_count()
    }

    /// How many workers to spawn for the waiting regions, within the budget.
    pub fn request_workers(&mut self) -> (count: usize)
        requires
            old(self)@.options.worker_task_slots > 0,
            enqueued_sets(old(self)@.queue) <= usize::MAX,
            vacant_count(old(self)@.workers) <= usize::MAX,
        ensures
            count == requested_workers(old(self)@),
            final(self)@ == old(self)@,
    {
        let regions: usize = self.task_queue.len();
        let mut enqueued: usize = 0;
        for i in 0..regions
            invariant
                *self == *old(self),
                regions == self.task_queue@.len(),
                enqueued == enqueued_sets(self@.queue.take(i as int)),
                enqueued_sets(self@.queue) <= usize::MAX,
        {
            proof {
                assert(self@.queue.take(i + 1).drop_last() =~= self@.queue.take(i as int));
                lemma_enqueued_prefix(self@.queue, i + 1);
                assert(self@.queue[i as int] == self.task_queue@[i as int]@);
            }
            enqueued = enqueued + self.task_queue[i].worker_set_count();
        }
        assert(self@.queue.take(regions as int) =~= self@.queue);
        let n: usize = workers_len(&self.workers);
        let mut vacant: usize = 0;
        for i in 0..n
            invariant
                *self == *old(self),
                n == worker_entries(self.workers).len(),
                vacant == vacant_count(self@.workers.take(i as int)),
                vacant_count(self@.workers) <= usize::MAX,
        {
            proof {
                assert(self@.workers.take(i + 1).drop_last() =~= self@.workers.take(i as int));
                lemma_vacant_count_prefix(self@.workers, i + 1);
            }
            match workers_get_index(&self.workers, i) {
                Some((_, WorkerResource::Active { task_slots, .. })) => {
                    vacant = vacant + vacant_slot_positions(task_slots).len();
                },
                _ => {},
            }
        }
        assert(self@.workers.take(n as int) =~= self@.workers);
        let required: usize = enqueued.saturating_sub(vacant);
        let allowed: usize = if self.options.worker_max_count == 0 {
            usize::MAX
        } else {
            self.options.worker_max_count.saturating_sub(self.total_live_worker_count())
        };
        let slots: usize = self.options.worker_task_slots;
        let quotient: usize = required / slots;
        let wanted: usize = if required % slots == 0 {
            quotient
        } else {
            proof {
                assert(quotient < usize::MAX) by (nonlinear_arith)
                    requires
                        quotient == required / slots,
                        required % slots != 0,
                        slots > 0,
                        required <= usize::MAX,
                ;
            }
            quotient + 1
        };
        proof {
            let r = required as int;
            let s = slots as int;
            assert((r + s - 1) / s == if r % s == 0 {
                r / s
            } else {
                r / s + 1
            }) by (nonlinear_arith)
                requires
                    s > 0,
                    r >= 0,
            ;
            if required == 0 {
                assert(0int / s == 0) by (nonlinear_arith)
                    requires
                        s > 0,
                ;
            }
        }
        assert(allowed == worker_budget(self@));
        assert(wanted == wanted_workers(self@));
        if wanted <= allowed {
            wanted
        } else {
            allowed
        }
    }

    /// Number of workers to pre-spawn at session start so that the initial count of live
    /// workers is ready, capped by the maximum count. Unlike
    /// [`TaskAssigner::request_workers`], this ignores the waiting regions.
    pub fn request_initial_workers(&mut self) -> (count: usize)
        ensures
            count == requested_initial_workers(old(self)@),
            final(self)@ == old(self)@,
    {
        let live: usize = self.total_live_worker_count();
        let missing: usize = self.options.worker_initial_count.saturating_sub(live);
        if self.options.worker_max_count == 0 {
            return missing;
        }
        let allowed: usize = self.options.worker_max_count.saturating_sub(live);
        if missing <= allowed {
            missing
        } else {
            allowed
        }
    }

    /// Records that a spawn for the worker was requested. The worker consumes the budget
    /// until it registers ([`TaskAssigner::activate_worker`]) or fails to start
    /// ([`TaskAssigner::track_worker_failed_to_start`]). A worker that is already tracked
    /// stays as it is.
    pub fn add_pending_worker(&mut self, worker_id: WorkerId)
        requires
            old(self)@.wf(),
        ensures
            final(self)@ == pending_added(old(self)@, worker_id.0),
            final(self)@.wf(),
    {
        proof {
            lemma_workers(worker_entries(self.workers));
        }
        if workers_contains(&self.workers, worker_id.0) {
            return;
        }
        workers_insert(&mut self.workers, worker_id.0, WorkerResource::Pending);
        proof {
            assert(self@.workers =~= old(self)@.workers.push((worker_id.0, WorkerView::Pending)));
            lemma_stored(old(self)@.workers, worker_id.0, WorkerView::Pending);
        }
    }

    fn remove_worker(&mut self, worker_id: WorkerId)
        requires
            old(self)@.wf(),
        ensures
            final(self)@ == worker_gone(old(self)@, worker_id.0),
            final(self)@.wf(),
    {
        proof {
            lemma_workers(worker_entries(self.workers));
            lemma_dropped(self@.workers, worker_id.0);
        }
        workers_shift_remove(&mut self.workers, worker_id.0);
        assert(self@.workers =~= dropped(old(self)@.workers, worker_id.0));
    }

    /// Removes a requested worker that never registered. This releases its share of the
    /// budget.
    pub fn track_worker_failed_to_start(&mut self, worker_id: WorkerId)
        requires
            old(self)@.wf(),
        ensures
            final(self)@ == worker_gone(old(self)@, worker_id.0),
            final(self)@.wf(),
    {
        self.remove_worker(worker_id);
    }

    /// Turns a pending worker into an active one with free slots. Any other worker stays
    /// as it is.
    pub fn activate_worker(&mut self, worker_id: WorkerId)
        requires
            old(self)@.wf(),
        ensures
            final(self)@ == worker_activated(old(self)@, worker_id.0),
            final(self)@.wf(),
    {
        let ghost entries = worker_entries(self.workers);
        proof {
            lemma_workers(entries);
            lemma_stored(
                self@.workers,
                worker_id.0,
                fresh_worker(self@.options.worker_task_slots),
            );
        }
        let task_slots: usize = self.options.worker_task_slots;
        match workers_get_mut(&mut self.workers, worker_id.0) {
            Some(worker) => {
                match worker {
                    WorkerResource::Pending => {
                        *worker = WorkerResource::activated(task_slots);
                    },
                    WorkerResource::Active { .. } => {},
                }
            },
            None => {},
        }
        proof {
            let i = key_index(entries, worker_id.0);
            if value_of(old(self)@.workers, worker_id.0) == Some(WorkerView::Pending) {
                assert(self@.workers =~= old(self)@.workers.update(
                    i,
                    (worker_id.0, fresh_worker(task_slots)),
                ));
            } else {
                assert(self@.workers =~= old(self)@.workers);
            }
        }
    }

    /// Removes a worker that is idle or lost: it no longer consumes the budget.
    pub fn deactivate_worker(&mut self, worker_id: WorkerId)
        requires
            old(self)@.wf(),
        ensures
            final(self)@ == worker_gone(old(self)@, worker_id.0),
            final(self)@.wf(),
    {
        self.remove_worker(worker_id);
    }

    pub fn enqueue_tasks(&mut self, region: TaskRegion)
        ensures
            final(self)@ == (TaskAssignerView {
                queue: old(self)@.queue.push(region@),
                ..old(self)@
            }),
    {
        self.task_queue.push_back(region);
        assert(self@.queue =~= old(self)@.queue.push(region@));
    }

    pub fn is_task_queue_empty(&self) -> (empty: bool)
        ensures
            empty == (self@.queue.len() == 0),
    {
        self.task_queue.len() == 0
    }

    /// Drops the waiting regions that schedule the task with the given key.
    pub fn exclude_task(&mut self, key: &TaskKey)
        ensures
            final(self)@ == task_excluded(old(self)@, *key),
    {
        let mut kept: VecDeque<TaskRegion> = VecDeque::new();
        let regions: usize = self.task_queue.len();
        let ghost queue = self.task_queue@;
        for i in 0..regions
            invariant
                self.task_queue@ == queue.skip(i as int),
                regions == queue.len(),
                self.options == old(self).options,
                self.driver == old(self).driver,
                self.workers == old(self).workers,
                self.task_assignments == old(self).task_assignments,
                queue == old(self).task_queue@,
                queue_view(kept@) == queue_view(queue).take(i as int).filter(
                    without_region_of(*key),
                ),
        {
            proof {
                reveal(Seq::filter);
                assert(queue_view(queue).take(i + 1).drop_last() =~= queue_view(queue).take(
                    i as int,
                ));
                assert(queue.skip(i as int).subrange(1, queue.skip(i as int).len() as int)
                    =~= queue.skip(i + 1));
                assert(queue.skip(i as int)[0] == queue[i as int]);
            }
            match self.task_queue.pop_front() {
                Some(region) => {
                    let ghost before = queue_view(kept@);
                    if !region.contains(key) {
                        kept.push_back(region);
                        assert(queue_view(kept@) =~= before.push(region@));
                    }
                },
                None => {},
            }
            assert(self.task_queue@ =~= queue.skip(i + 1));
        }
        self.task_queue = kept;
        assert(queue_view(queue).take(regions as int) =~= queue_view(queue));
    }

    /// Builds a snapshot of the free task slots across active workers for assignment.
    pub fn build_worker_task_slot_assigner(&self) -> (assigner: TaskSlotAssigner)
        ensures
            assigner@ == slot_order(free_slots(self@.workers)),
    {
        let n: usize = workers_len(&self.workers);
        let mut slots: Vec<(WorkerId, Vec<usize>)> = Vec::new();
        for i in 0..n
            invariant
                n == worker_entries(self.workers).len(),
                slot_order(slots_of(slots@)) == slot_order(free_slots(self@.workers.take(i as int))),
        {
            let ghost prefix = self@.workers.take(i as int);
            let ghost entry = self@.workers[i as int];
            let ghost free = (WorkerId(entry.0), worker_vacant_slots(entry.1));
            proof {
                assert(self@.workers.take(i + 1) =~= prefix.push(entry));
                assert(free_slots(prefix.push(entry)) =~= free_slots(prefix).push(free));
                lemma_slot_order_push(free_slots(prefix), free);
                lemma_slot_order_push(slots_of(slots@), free);
            }
            match workers_get_index(&self.workers, i) {
                Some((id, WorkerResource::Active { task_slots, .. })) => {
                    let vacant = vacant_slot_positions(task_slots);
                    assert(vacant@ == free.1);
                    if vacant.len() > 0 {
                        let ghost before = slots_of(slots@);
                        slots.push((WorkerId(*id), vacant));
                        assert(slots_of(slots@) =~= before.push(free));
                    } else {
                        assert(free.1.reverse().map_values(|slot: usize| (free.0, slot))
                            =~= Seq::empty());
                    }
                },
                _ => {
                    assert(free.1.reverse().map_values(|slot: usize| (free.0, slot))
                        =~= Seq::empty());
                },
            }
            assert(slot_order(slots_of(slots@)) =~= slot_order(
                free_slots(self@.workers.take(i + 1)),
            ));
        }
        assert(self@.workers.take(n as int) =~= self@.workers);
        TaskSlotAssigner::new(slots)
    }

    fn record(&mut self, set: &TaskSet, assignment: TaskAssignment)
        requires
            old(self)@.wf(),
        ensures
            final(self)@ == (TaskAssignerView {
                assignments: recorded(old(self)@.assignments, set_keys(set@), assignment),
                ..old(self)@
            }),
            final(self)@.wf(),
    {
        let keys = set.tasks();
        for i in 0..keys.len()
            invariant
                keys@ == set_keys(set@),
                self.options == old(self).options,
                self.driver == old(self).driver,
                self.workers == old(self).workers,
                self.task_queue == old(self).task_queue,
                distinct_keys(self.task_assignments@),
                self.task_assignments@ == recorded(
                    old(self).task_assignments@,
                    keys@.take(i as int),
                    assignment,
                ),
        {
            let key = keys[i];
            let ghost entries = self.task_assignments@;
            proof {
                assert(keys@.take(i + 1).drop_last() =~= keys@.take(i as int));
                lemma_stored(entries, key, assignment);
            }
            match self.find_assignment(&key) {
                Some(at) => {
                    proof {
                        lemma_key_index(entries, at as int);
                    }
                    self.task_assignments.set(at, (key, assignment));
                },
                None => {
                    self.task_assignments.push((key, assignment));
                },
            }
        }
        assert(keys@.take(keys@.len() as int) =~= keys@);
    }

    fn find_assignment(&self, key: &TaskKey) -> (at: Option<usize>)
        ensures
            at matches Some(i) ==> i < self.task_assignments@.len()
                && self.task_assignments@[i as int].0 == *key,
            at is None ==> !has_key(self.task_assignments@, *key),
    {
        for i in 0..self.task_assignments.len()
            invariant
                forall|j: int| 0 <= j < i ==> (#[trigger] self.task_assignments@[j]).0 != *key,
        {
            if self.task_assignments[i].0 == *key {
                return Some(i);
            }
        }
        None
    }

    /// Where the task with the given key was placed last.
    pub fn get(&self, key: &TaskKey) -> (assignment: Option<TaskAssignment>)
        requires
            self@.wf(),
        ensures
            assignment == value_of(self@.assignments, *key),
    {
        match self.find_assignment(key) {
            Some(i) => {
                proof {
                    lemma_key_index(self.task_assignments@, i as int);
                }
                Some(self.task_assignments[i].1)
            },
            None => None,
        }
    }

    fn start(&mut self, placement: &TaskSetAssignment)
        requires
            old(self)@.wf(),
        ensures
            final(self)@ == started(old(self)@, placement@),
            final(self)@.wf(),
    {
        match placement.assignment {
            TaskAssignment::Driver => {
                self.driver.add_task_set(&placement.set);
                self.record(&placement.set, TaskAssignment::Driver);
            },
            TaskAssignment::Worker { worker_id, slot } => {
                let ghost entries = worker_entries(self.workers);
                proof {
                    lemma_workers(entries);
                }
                let found = match workers_get_mut(&mut self.workers, worker_id.0) {
                    Some(worker) => {
                        worker.add_task_set(slot, &placement.set);
                        true
                    },
                    None => false,
                };
                if found {
                    proof {
                        let i = key_index(old(self)@.workers, worker_id.0);
                        let worker = worker_with_set(
                            old(self)@.workers[i].1,
                            slot,
                            placement.set@,
                        );
                        assert(self@.workers =~= old(self)@.workers.update(i, (worker_id.0, worker)));
                        lemma_stored(old(self)@.workers, worker_id.0, worker);
                    }
                    self.record(&placement.set, placement.assignment);
                }
            },
        }
    }

    /// Places the regions at the front of the queue, as long as the free worker slots
    /// suffice for a whole region, and starts their task sets.
    ///
    /// The first region that cannot be placed stays at the front of the queue and blocks
    /// those behind it, so that regions are placed in the order in which they were
    /// enqueued.
    pub fn assign_tasks(&mut self) -> (assignments: Vec<TaskSetAssignment>)
        requires
            old(self)@.wf(),
        ensures
            assignments_view(assignments@) == placements(old(self)@),
            final(self)@ == tasks_assigned(old(self)@),
            final(self)@.wf(),
    {
        let mut assignments: Vec<TaskSetAssignment> = Vec::new();
        let mut assigner = self.build_worker_task_slot_assigner();
        let ghost view = self@;
        let ghost order = assigner@;
        let ghost mut taken: nat = 0;
        proof {
            assert(view.queue.skip(0) =~= view.queue);
        }
        loop
            invariant_except_break
                self@ == (TaskAssignerView { queue: view.queue.skip(taken as int), ..view }),
                taken <= view.queue.len(),
                assignments_view(assignments@) + queue_placed(
                    view.queue.skip(taken as int),
                    assigner@,
                ) == queue_placed(view.queue, order),
                taken + placeable(view.queue.skip(taken as int), assigner@) == placeable(
                    view.queue,
                    order,
                ),
            invariant
                view.wf(),
            ensures
                self@ == (TaskAssignerView {
                    queue: view.queue.skip(placeable(view.queue, order) as int),
                    ..view
                }),
                assignments_view(assignments@) == queue_placed(view.queue, order),
            decreases self.task_queue@.len(),
        {
            let ghost rest = view.queue.skip(taken as int);
            let ghost slots = assigner@;
            match self.task_queue.pop_front() {
                None => {
                    proof {
                        assert(self@.queue.len() == 0);
                        assert(assignments_view(assignments@) =~= queue_placed(view.queue, order));
                        assert(self@.queue =~= rest);
                    }
                    break;
                },
                Some(region) => {
                    assert(region@ == rest[0]);
                    assert(self@.queue =~= rest.drop_first());
                    assert(rest.drop_first() =~= view.queue.skip(taken as int + 1));
                    match assigner.try_assign_task_region(region) {
                        Ok(placements) => {
                            let ghost before = assignments_view(assignments@);
                            let ghost more = assignments_view(placements@);
                            let mut placements = placements;
                            assignments.append(&mut placements);
                            proof {
                                assert(assignments_view(assignments@) =~= before + more);
                                assert(before + (more + queue_placed(rest.drop_first(), assigner@))
                                    =~= (before + more) + queue_placed(
                                    rest.drop_first(),
                                    assigner@,
                                ));
                                taken = taken + 1;
                            }
                        },
                        Err(region) => {
                            self.task_queue.push_front(region);
                            proof {
                                assert(self@.queue =~= rest);
                                assert(assignments_view(assignments@) =~= queue_placed(
                                    view.queue,
                                    order,
                                ));
                            }
                            break;
                        },
                    }
                },
            }
        }
        let ghost queued = self@;
        let ghost made = assignments_view(assignments@);
        for i in 0..assignments.len()
            invariant
                made == assignments_view(assignments@),
                self@ == all_started(queued, made.take(i as int)),
                self@.wf(),
        {
            assert(made.take(i + 1).drop_last() =~= made.take(i as int));
            self.start(&assignments[i]);
        }
        assert(made.take(assignments@.len() as int) =~= made);
        assignments
    }

    /// Ends a task where it was placed. Returns where that was, or `None` where the task
    /// was never placed or its worker is gone.
    pub fn unassign_task(&mut self, key: &TaskKey) -> (assignment: Option<TaskAssignment>)
        requires
            old(self)@.wf(),
        ensures
            ({
                let view = old(self)@;
                match value_of(view.assignments, *key) {
                    None => assignment is None && final(self)@ == view,
                    Some(TaskAssignment::Driver) => assignment == Some(TaskAssignment::Driver)
                        && final(self)@ == (TaskAssignerView {
                        driver: DriverView {
                            tasks: without_task(view.driver.tasks, *key),
                            ..view.driver
                        },
                        ..view
                    }),
                    Some(TaskAssignment::Worker { worker_id, slot }) => if has_key(
                        view.workers,
                        worker_id.0,
                    ) {
                        let i = key_index(view.workers, worker_id.0);
                        assignment == value_of(view.assignments, *key) && final(self)@ == (
                        TaskAssignerView {
                            workers: view.workers.update(
                                i,
                                (
                                    worker_id.0,
                                    worker_without_task(view.workers[i].1, slot, *key),
                                ),
                            ),
                            ..view
                        })
                    } else {
                        assignment is None && final(self)@ == view
                    },
                }
            }),
            assignment == ended_at(old(self)@, *key),
            final(self)@ == task_ended(old(self)@, *key),
            final(self)@.wf(),
    {
        let assignment = match self.get(key) {
            Some(assignment) => assignment,
            None => {
                return None;
            },
        };
        match assignment {
            TaskAssignment::Driver => {
                self.driver.remove_task(key);
            },
            TaskAssignment::Worker { worker_id, slot } => {
                let ghost entries = worker_entries(self.workers);
                proof {
                    lemma_workers(entries);
                }
                let found = match workers_get_mut(&mut self.workers, worker_id.0) {
                    Some(worker) => {
                        worker.remove_task(key, slot);
                        true
                    },
                    None => false,
                };
                if !found {
                    return None;
                }
                proof {
                    let i = key_index(old(self)@.workers, worker_id.0);
                    let worker = worker_without_task(old(self)@.workers[i].1, slot, *key);
                    assert(self@.workers =~= old(self)@.workers.update(i, (worker_id.0, worker)));
                    lemma_stored(old(self)@.workers, worker_id.0, worker);
                }
            },
        }
        Some(assignment)
    }

    fn track_set_streams(&mut self, placement: &TaskSetAssignment)
        requires
            old(self)@.wf(),
        ensures
            final(self)@ == streams_tracked(old(self)@, placement@),
            final(self)@.wf(),
    {
        self.driver.track_remote_streams(&placement.set);
        match placement.assignment {
            TaskAssignment::Driver => {
                self.driver.track_local_streams(&placement.set);
            },
            TaskAssignment::Worker { worker_id, .. } => {
                let ghost entries = worker_entries(self.workers);
                proof {
                    lemma_workers(entries);
                }
                let found = match workers_get_mut(&mut self.workers, worker_id.0) {
                    Some(worker) => {
                        worker.track_local_streams(&placement.set);
                        true
                    },
                    None => false,
                };
                proof {
                    if found {
                        let i = key_index(old(self)@.workers, worker_id.0);
                        let worker = worker_with_streams(old(self)@.workers[i].1, placement.set@);
                        assert(self@.workers =~= old(self)@.workers.update(i, (worker_id.0, worker)));
                        lemma_stored(old(self)@.workers, worker_id.0, worker);
                    }
                }
            },
        }
    }

    /// Records local and remote stream ownership for each resource based on the given task
    /// assignments.
    pub fn track_streams(&mut self, assignments: &Vec<TaskSetAssignment>)
        requires
            old(self)@.wf(),
        ensures
            final(self)@ == all_streams_tracked(old(self)@, assignments_view(assignments@)),
            final(self)@.wf(),
    {
        let ghost made = assignments_view(assignments@);
        for i in 0..assignments.len()
            invariant
                made == assignments_view(assignments@),
                self@ == all_streams_tracked(old(self)@, made.take(i as int)),
                self@.wf(),
        {
            assert(made.take(i + 1).drop_last() =~= made.take(i as int));
            self.track_set_streams(&assignments[i]);
        }
        assert(made.take(assignments@.len() as int) =~= made);
    }

    /// Releases the local streams of a job, or of one of its stages. Returns who owned
    /// some: the driver first, then the workers in order.
    pub fn untrack_local_streams(&mut self, job_id: JobId, stage: Option<usize>) -> (owners: Vec<
        TaskStreamAssignment,
    >)
        requires
            old(self)@.wf(),
        ensures
            owners@ == (if any_produced_by(old(self)@.driver.local_streams, job_id.0, stage) {
                seq![TaskStreamAssignment::Driver]
            } else {
                Seq::empty()
            }) + owning_workers(old(self)@.workers, job_id.0, stage),
            final(self)@ == local_streams_released(old(self)@, job_id.0, stage),
            final(self)@.wf(),
    {
        let mut owners: Vec<TaskStreamAssignment> = Vec::new();
        if self.driver.untrack_local_streams(job_id.0, stage) {
            owners.push(TaskStreamAssignment::Driver);
        }
        let ghost first = owners@;
        let ghost driver = self.driver@;
        let ghost workers = self@.workers;
        let n: usize = workers_len(&self.workers);
        assert(workers.take(0) =~= Seq::<(u64, WorkerView)>::empty());
        assert(owners@ =~= first + owning_workers(workers.take(0), job_id.0, stage));
        for i in 0..n
            invariant
                n == worker_entries(self.workers).len(),
                n == workers.len(),
                self.options == old(self).options,
                self.driver@ == driver,
                self.task_assignments == old(self).task_assignments,
                self.task_queue == old(self).task_queue,
                owners@ == first + owning_workers(workers.take(i as int), job_id.0, stage),
                forall|j: int|
                    i <= j < n ==> #[trigger] self@.workers[j] == workers[j],
                forall|j: int|
                    0 <= j < i ==> #[trigger] self@.workers[j] == workers_released(
                        workers,
                        job_id.0,
                        stage,
                    )[j],
        {
            let ghost entries = worker_entries(self.workers);
            proof {
                assert(workers.take(i + 1).drop_last() =~= workers.take(i as int));
                assert(self@.workers[i as int] == workers[i as int]);
            }
            match workers_get_index_mut(&mut self.workers, i) {
                Some((id, worker)) => {
                    let worker_id = WorkerId(*id);
                    if worker.untrack_local_streams(job_id.0, stage) {
                        owners.push(TaskStreamAssignment::Worker { worker_id });
                    }
                },
                None => {},
            }
            proof {
                assert forall|j: int| 0 <= j < n && j != i implies #[trigger] self@.workers[j]
                    == workers_view(entries)[j] by {
                    assert(worker_entries(self.workers)[j] == entries[j]);
                }
                assert(owners@ =~= first + owning_workers(workers.take(i + 1), job_id.0, stage));
            }
        }
        proof {
            assert(workers.take(n as int) =~= workers);
            assert(self@.workers =~= workers_released(workers, job_id.0, stage));
            assert forall|i: int, j: int|
                0 <= i < self@.workers.len() && 0 <= j < self@.workers.len() && i != j implies (
            #[trigger] self@.workers[i]).0 != (#[trigger] self@.workers[j]).0 by {
                assert(workers[i].0 != workers[j].0);
            }
        }
        owners
    }

    /// Releases the remote streams of a job, or of one of its stages. Returns whether there
    /// were any.
    pub fn untrack_remote_streams(&mut self, job_id: JobId, stage: Option<usize>) -> (any: bool)
        ensures
            any == any_produced_by(old(self)@.driver.remote_streams, job_id.0, stage),
            final(self)@ == (TaskAssignerView {
                driver: DriverView {
                    remote_streams: released(old(self)@.driver.remote_streams, job_id.0, stage),
                    ..old(self)@.driver
                },
                ..old(self)@
            }),
    {
        self.driver.untrack_remote_streams(job_id.0, stage)
    }

    /// Whether the worker is registered, runs no task and owns no stream.
    pub fn is_worker_idle(&self, worker_id: WorkerId) -> (idle: bool)
        requires
            self@.wf(),
        ensures
            idle == (value_of(self@.workers, worker_id.0) matches Some(worker) && worker_idle(
                worker,
            )),
    {
        proof {
            lemma_workers(worker_entries(self.workers));
        }
        match workers_get(&self.workers, worker_id.0) {
            Some(worker) => worker.is_idle(),
            None => false,
        }
    }

    /// The tasks that run on the worker, slot by slot.
    pub fn find_worker_tasks(&self, worker_id: WorkerId) -> (keys: Vec<TaskKey>)
        requires
            self@.wf(),
        ensures
            keys@ == worker_tasks(self@, worker_id.0),
    {
        proof {
            lemma_workers(worker_entries(self.workers));
        }
        let mut keys: Vec<TaskKey> = Vec::new();
        match workers_get(&self.workers, worker_id.0) {
            Some(WorkerResource::Active { task_slots, .. }) => {
                for i in 0..task_slots.len()
                    invariant
                        keys@ == slot_tasks(slots_view(task_slots@).take(i as int)),
                {
                    let ghost slots = slots_view(task_slots@);
                    assert(slots.take(i + 1).drop_last() =~= slots.take(i as int));
                    let mut more = task_slots[i].list_tasks().clone();
                    assert(more@ =~= slots[i as int]);
                    keys.append(&mut more);
                }
                assert(slots_view(task_slots@).take(task_slots@.len() as int) =~= slots_view(
                    task_slots@,
                ));
            },
            _ => {},
        }
        keys
    }
}

} // verus!

use indexmap::IndexSet;
use vstd::prelude::*;

use crate::execution::id::TaskKey;
use crate::execution::scheduling::{TaskOutputKind, TaskSet, TaskSetEntry};
use crate::execution::stream_set::{producers_insert, producers_is_empty, producers_new, release};

verus! {

use crate::execution::scheduling::set_keys;
use crate::execution::stream_set::{
    produced_by, producer_of, producer_seq, released, tracked_with, Producer,
};

/// The tasks after one more is added; a task that is already there is not added twice.
pub open spec fn with_task(tasks: Seq<TaskKey>, key: TaskKey) -> Seq<TaskKey> {
    if tasks.contains(key) {
        tasks
    } else {
        tasks.push(key)
    }
}

/// The tasks after several more are added, in order.
pub open spec fn with_tasks(tasks: Seq<TaskKey>, keys: Seq<TaskKey>) -> Seq<TaskKey>
    decreases keys.len(),
{
    if keys.len() == 0 {
        tasks
    } else {
        with_task(with_tasks(tasks, keys.drop_last()), keys.last())
    }
}

/// Holds of every key but the given one.
pub open spec fn other_than(key: TaskKey) -> spec_fn(TaskKey) -> bool {
    |other: TaskKey| other != key
}

/// The tasks without the one that has the given key.
pub open spec fn without_task(tasks: Seq<TaskKey>, key: TaskKey) -> Seq<TaskKey> {
    tasks.filter(other_than(key))
}

/// The producers after the tasks of a set whose output is of the given kind are tracked.
pub open spec fn with_producers(
    producers: Seq<Producer>,
    entries: Seq<TaskSetEntry>,
    kind: TaskOutputKind,
) -> Seq<Producer>
    decreases entries.len(),
{
    if entries.len() == 0 {
        producers
    } else {
        let init = with_producers(producers, entries.drop_last(), kind);
        if entries.last().output == kind {
            tracked_with(init, producer_of(entries.last().key))
        } else {
            init
        }
    }
}

fn add_keys(tasks: &mut Vec<TaskKey>, keys: &Vec<TaskKey>)
    ensures
        final(tasks)@ == with_tasks(old(tasks)@, keys@),
{
    for i in 0..keys.len()
        invariant
            tasks@ == with_tasks(old(tasks)@, keys@.take(i as int)),
    {
        let key = keys[i];
        let mut found = false;
        for j in 0..tasks.len()
            invariant
                i < keys.len(),
                key == keys@[i as int],
                found == tasks@.take(j as int).contains(key),
        {
            let ghost prefix = tasks@.take(j + 1);
            assert(prefix.drop_last() =~= tasks@.take(j as int));
            assert(tasks@.take(j as int).contains(key) ==> prefix.contains(key)) by {
                if tasks@.take(j as int).contains(key) {
                    let n = choose|n: int|
                        0 <= n < j && #[trigger] tasks@.take(j as int)[n] == key;
                    assert(prefix[n] == key);
                }
            }
            if tasks[j] == key {
                found = true;
                assert(prefix[j as int] == key);
            } else {
                assert(prefix.contains(key) ==> tasks@.take(j as int).contains(key)) by {
                    if prefix.contains(key) {
                        let n = choose|n: int| 0 <= n < j + 1 && #[trigger] prefix[n] == key;
                        assert(tasks@.take(j as int)[n] == key);
                    }
                }
            }
        }
        assert(tasks@.take(tasks@.len() as int) =~= tasks@);
        if !found {
            tasks.push(key);
        }
        assert(keys@.take(i + 1).drop_last() =~= keys@.take(i as int));
    }
    assert(keys@.take(keys@.len() as int) =~= keys@);
}

fn remove_key(tasks: &mut Vec<TaskKey>, key: &TaskKey)
    ensures
        final(tasks)@ == without_task(old(tasks)@, *key),
{
    let mut kept: Vec<TaskKey> = Vec::new();
    for i in 0..tasks.len()
        invariant
            tasks@ == old(tasks)@,
            kept@ == without_task(tasks@.take(i as int), *key),
    {
        proof {
            reveal(Seq::filter);
            assert(tasks@.take(i + 1).drop_last() =~= tasks@.take(i as int));
        }
        if tasks[i] != *key {
            kept.push(tasks[i]);
        }
    }
    assert(tasks@.take(tasks@.len() as int) =~= tasks@);
    *tasks = kept;
}

fn track(
    producers: &mut IndexSet<(u64, usize, usize, usize)>,
    set: &TaskSet,
    kind: TaskOutputKind,
)
    ensures
        producer_seq(*final(producers)) == with_producers(producer_seq(*old(producers)), set@, kind),
{
    for i in 0..set.entries.len()
        invariant
            producer_seq(*producers) == with_producers(
                producer_seq(*old(producers)),
                set@.take(i as int),
                kind,
            ),
    {
        let entry = set.entries[i];
        assert(set@.take(i + 1).drop_last() =~= set@.take(i as int));
        if entry.output == kind {
            let key = entry.key;
            producers_insert(producers, (key.job_id.0, key.stage, key.partition, key.attempt));
        }
    }
    assert(set@.take(set@.len() as int) =~= set@);
}

/// A place on a worker where one task set can run.
#[derive(Debug)]
pub struct TaskSlot {
    tasks: Vec<TaskKey>,
}

impl View for TaskSlot {
    type V = Seq<TaskKey>;

    closed spec fn view(&self) -> Seq<TaskKey> {
        self.tasks@
    }
}

impl Default for TaskSlot {
    fn default() -> (slot: TaskSlot)
        ensures
            slot@ == Seq::<TaskKey>::empty(),
    {
        TaskSlot { tasks: Vec::new() }
    }
}

impl TaskSlot {
    /// Whether no task runs in the slot.
    pub fn is_vacant(&self) -> (vacant: bool)
        ensures
            vacant == (self@.len() == 0),
    {
        self.tasks.len() == 0
    }

    /// The tasks that run in the slot.
    pub fn list_tasks(&self) -> (keys: &Vec<TaskKey>)
        ensures
            keys@ == self@,
    {
        &self.tasks
    }

    pub fn add_task_set(&mut self, set: &TaskSet)
        ensures
            final(self)@ == with_tasks(old(self)@, set_keys(set@)),
    {
        let keys = set.tasks();
        add_keys(&mut self.tasks, &keys);
    }

    pub fn remove_task(&mut self, key: &TaskKey)
        ensures
            final(self)@ == without_task(old(self)@, *key),
    {
        remove_key(&mut self.tasks, key);
    }
}

/// A worker as the scheduler sees it.
pub enum WorkerView {
    /// Requested but not registered yet.
    Pending,
    /// Registered, with the tasks in each slot and the producers of its local streams.
    Active { slots: Seq<Seq<TaskKey>>, streams: Seq<Producer> },
}

#[derive(Debug)]
pub enum WorkerResource {
    Pending,
    Active { task_slots: Vec<TaskSlot>, local_streams: IndexSet<(u64, usize, usize, usize)> },
}

/// The tasks in each slot.
pub open spec fn slots_view(slots: Seq<TaskSlot>) -> Seq<Seq<TaskKey>> {
    slots.map_values(|slot: TaskSlot| slot@)
}

impl View for WorkerResource {
    type V = WorkerView;

    open spec fn view(&self) -> WorkerView {
        match self {
            WorkerResource::Pending => WorkerView::Pending,
            WorkerResource::Active { task_slots, local_streams } => WorkerView::Active {
                slots: slots_view(task_slots@),
                streams: producer_seq(*local_streams),
            },
        }
    }
}

/// A worker after a task set starts in one of its slots. A worker that has not
/// registered, or that has no such slot, stays as it is.
pub open spec fn worker_with_set(
    worker: WorkerView,
    slot: usize,
    entries: Seq<TaskSetEntry>,
) -> WorkerView {
    match worker {
        WorkerView::Active { slots, streams } if slot < slots.len() => WorkerView::Active {
            slots: slots.update(slot as int, with_tasks(slots[slot as int], set_keys(entries))),
            streams,
        },
        _ => worker,
    }
}

/// A worker after a task leaves one of its slots.
pub open spec fn worker_without_task(worker: WorkerView, slot: usize, key: TaskKey) -> WorkerView {
    match worker {
        WorkerView::Active { slots, streams } if slot < slots.len() => WorkerView::Active {
            slots: slots.update(slot as int, without_task(slots[slot as int], key)),
            streams,
        },
        _ => worker,
    }
}

/// A worker after the local streams of a task set are tracked.
pub open spec fn worker_with_streams(worker: WorkerView, entries: Seq<TaskSetEntry>) -> WorkerView {
    match worker {
        WorkerView::Active { slots, streams } => WorkerView::Active {
            slots,
            streams: with_producers(streams, entries, TaskOutputKind::Local),
        },
        WorkerView::Pending => worker,
    }
}

/// A worker after the local streams of a job (or of one of its stages) are released.
pub open spec fn worker_released(
    worker: WorkerView,
    job_id: u64,
    stage: Option<usize>,
) -> WorkerView {
    match worker {
        WorkerView::Active { slots, streams } => WorkerView::Active {
            slots,
            streams: released(streams, job_id, stage),
        },
        WorkerView::Pending => worker,
    }
}

/// Whether some of the producers belong to a job (or to one of its stages).
pub open spec fn any_produced_by(
    producers: Seq<Producer>,
    job_id: u64,
    stage: Option<usize>,
) -> bool {
    exists|i: int| 0 <= i < producers.len() && produced_by(#[trigger] producers[i], job_id, stage)
}

/// Whether a worker owns local streams of a job (or of one of its stages).
pub open spec fn worker_owns_streams(
    worker: WorkerView,
    job_id: u64,
    stage: Option<usize>,
) -> bool {
    worker matches WorkerView::Active { streams, .. } && any_produced_by(streams, job_id, stage)
}

/// Whether a worker is registered, runs no task and owns no stream.
pub open spec fn worker_idle(worker: WorkerView) -> bool {
    match worker {
        WorkerView::Active { slots, streams } => (forall|i: int|
            0 <= i < slots.len() ==> (#[trigger] slots[i]).len() == 0) && streams.len() == 0,
        WorkerView::Pending => false,
    }
}

/// A worker that has just registered with the given number of task slots.
pub open spec fn fresh_worker(task_slots: usize) -> WorkerView {
    WorkerView::Active {
        slots: Seq::new(task_slots as nat, |i: int| Seq::<TaskKey>::empty()),
        streams: Seq::empty(),
    }
}

impl WorkerResource {
    /// A worker that has just registered with the given number of task slots.
    pub fn activated(task_slots: usize) -> (worker: WorkerResource)
        ensures
            worker@ == fresh_worker(task_slots),
    {
        let mut slots: Vec<TaskSlot> = Vec::new();
        for i in 0..task_slots
            invariant
                slots@.len() == i,
                forall|j: int| 0 <= j < i ==> (#[trigger] slots@[j])@ == Seq::<TaskKey>::empty(),
        {
            slots.push(TaskSlot::default());
        }
        let local_streams = producers_new();
        assert(slots_view(slots@) =~= Seq::new(
            task_slots as nat,
            |i: int| Seq::<TaskKey>::empty(),
        ));
        WorkerResource::Active { task_slots: slots, local_streams }
    }

    pub fn add_task_set(&mut self, slot: usize, set: &TaskSet)
        ensures
            final(self)@ == worker_with_set(old(self)@, slot, set@),
    {
        let ghost before = *self;
        match self {
            WorkerResource::Active { task_slots, .. } => {
                if slot < task_slots.len() {
                    let ghost slots = task_slots@;
                    task_slots[slot].add_task_set(set);
                    assert(slots_view(task_slots@) =~= slots_view(slots).update(
                        slot as int,
                        with_tasks(slots[slot as int]@, set_keys(set@)),
                    ));
                }
            },
            WorkerResource::Pending => {},
        }
    }

    pub fn remove_task(&mut self, key: &TaskKey, slot: usize)
        ensures
            final(self)@ == worker_without_task(old(self)@, slot, *key),
    {
        match self {
            WorkerResource::Active { task_slots, .. } => {
                if slot < task_slots.len() {
                    let ghost slots = task_slots@;
                    task_slots[slot].remove_task(key);
                    assert(slots_view(task_slots@) =~= slots_view(slots).update(
                        slot as int,
                        without_task(slots[slot as int]@, *key),
                    ));
                }
            },
            WorkerResource::Pending => {},
        }
    }

    pub fn track_local_streams(&mut self, set: &TaskSet)
        ensures
            final(self)@ == worker_with_streams(old(self)@, set@),
    {
        match self {
            WorkerResource::Active { local_streams, .. } => {
                track(local_streams, set, TaskOutputKind::Local);
            },
            WorkerResource::Pending => {},
        }
    }

    /// Releases the local streams of a job, or of one of its stages. Returns whether there
    /// were any.
    pub fn untrack_local_streams(&mut self, job_id: u64, stage: Option<usize>) -> (any: bool)
        ensures
            final(self)@ == worker_released(old(self)@, job_id, stage),
            any == worker_owns_streams(old(self)@, job_id, stage),
    {
        match self {
            WorkerResource::Active { local_streams, .. } => release(local_streams, job_id, stage),
            WorkerResource::Pending => false,
        }
    }

    /// Whether the worker is registered, runs no task and owns no stream.
    pub fn is_idle(&self) -> (idle: bool)
        ensures
            idle == worker_idle(self@),
    {
        match self {
            WorkerResource::Active { task_slots, local_streams } => {
                for i in 0..task_slots.len()
                    invariant
                        self@ == (WorkerView::Active {
                            slots: slots_view(task_slots@),
                            streams: producer_seq(*local_streams),
                        }),
                        forall|j: int| 0 <= j < i ==> (#[trigger] task_slots@[j])@.len() == 0,
                {
                    if !task_slots[i].is_vacant() {
                        assert(self@->slots[i as int] == task_slots@[i as int]@);
                        return false;
                    }
                }
                producers_is_empty(local_streams)
            },
            WorkerResource::Pending => false,
        }
    }
}

/// The driver as the scheduler sees it.
pub struct DriverView {
    pub tasks: Seq<TaskKey>,
    pub local_streams: Seq<Producer>,
    pub remote_streams: Seq<Producer>,
}

#[derive(Debug)]
pub struct DriverResource {
    tasks: Vec<TaskKey>,
    local_streams: IndexSet<(u64, usize, usize, usize)>,
    remote_streams: IndexSet<(u64, usize, usize, usize)>,
}

impl View for DriverResource {
    type V = DriverView;

    closed spec fn view(&self) -> DriverView {
        DriverView {
            tasks: self.tasks@,
            local_streams: producer_seq(self.local_streams),
            remote_streams: producer_seq(self.remote_streams),
        }
    }
}

impl DriverResource {
    pub fn new() -> (driver: DriverResource)
        ensures
            driver@ == (DriverView {
                tasks: Seq::empty(),
                local_streams: Seq::empty(),
                remote_streams: Seq::empty(),
            }),
    {
        DriverResource {
            tasks: Vec::new(),
            local_streams: producers_new(),
            remote_streams: producers_new(),
        }
    }

    pub fn add_task_set(&mut self, set: &TaskSet)
        ensures
            final(self)@ == (DriverView {
                tasks: with_tasks(old(self)@.tasks, set_keys(set@)),
                ..old(self)@
            }),
    {
        let keys = set.tasks();
        add_keys(&mut self.tasks, &keys);
    }

    pub fn remove_task(&mut self, key: &TaskKey)
        ensures
            final(self)@ == (DriverView {
                tasks: without_task(old(self)@.tasks, *key),
                ..old(self)@
            }),
    {
        remove_key(&mut self.tasks, key);
    }

    pub fn track_local_streams(&mut self, set: &TaskSet)
        ensures
            final(self)@ == (DriverView {
                local_streams: with_producers(
                    old(self)@.local_streams,
                    set@,
                    TaskOutputKind::Local,
                ),
                ..old(self)@
            }),
    {
        track(&mut self.local_streams, set, TaskOutputKind::Local);
    }

    pub fn track_remote_streams(&mut self, set: &TaskSet)
        ensures
            final(self)@ == (DriverView {
                remote_streams: with_producers(
                    old(self)@.remote_streams,
                    set@,
                    TaskOutputKind::Remote,
                ),
                ..old(self)@
            }),
    {
        track(&mut self.remote_streams, set, TaskOutputKind::Remote);
    }

    pub fn untrack_local_streams(&mut self, job_id: u64, stage: Option<usize>) -> (any: bool)
        ensures
            final(self)@ == (DriverView {
                local_streams: released(old(self)@.local_streams, job_id, stage),
                ..old(self)@
            }),
            any == any_produced_by(old(self)@.local_streams, job_id, stage),
    {
        release(&mut self.local_streams, job_id, stage)
    }

    pub fn untrack_remote_streams(&mut self, job_id: u64, stage: Option<usize>) -> (any: bool)
        ensures
            final(self)@ == (DriverView {
                remote_streams: released(old(self)@.remote_streams, job_id, stage),
                ..old(self)@
            }),
            any == any_produced_by(old(self)@.remote_streams, job_id, stage),
    {
        release(&mut self.remote_streams, job_id, stage)
    }
}

} // verus!

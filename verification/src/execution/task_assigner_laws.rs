//! What holds of the scheduler over several calls.

use vstd::prelude::*;

verus! {

use crate::assoc::{
    distinct_keys, dropped, has_key, key_index, lemma_dropped, lemma_key_index, lemma_stored,
    stored, value_of,
};
use crate::execution::id::{TaskKey, WorkerId};
use crate::execution::scheduling::{
    region_contains, set_keys, worker_sets, TaskAssignment, TaskOutputKind, TaskPlacement,
    TaskSetEntry, TaskStreamAssignment,
};
use crate::execution::slot_assigner::{placed, slot_order};
use crate::execution::state::{
    any_produced_by, fresh_worker, other_than, with_producers, with_tasks, without_task,
    worker_idle, worker_owns_streams, worker_with_set, worker_with_streams, worker_without_task,
    WorkerView,
};
use crate::execution::stream_set::{produced_by, producer_of, released, Producer};
use crate::execution::task_assigner::{
    active_count, all_started, ended_at, enqueued_sets, free_slots, has_slots, local_streams_released,
    owning_workers, pending_added, pending_count, placeable, placed_regions, placements,
    queue_placed, recorded, requested_initial_workers, requested_workers, slot_tasks, started,
    streams_tracked, task_ended, task_excluded, tasks_assigned, vacant_count, vacant_slots, wanted_workers,
    without_region_of, worker_activated, worker_gone, worker_tasks, worker_vacant_slots,
    RegionView, TaskAssignerView,
};

/// Requests never exceed the budget: where the live workers are within the maximum, so are
/// they with all requested workers added.
pub proof fn law_requests_stay_within_budget(view: TaskAssignerView)
    requires
        view.options.worker_max_count > 0,
        view.workers.len() <= view.options.worker_max_count,
    ensures
        view.workers.len() + requested_workers(view) <= view.options.worker_max_count,
        view.workers.len() + requested_initial_workers(view) <= view.options.worker_max_count,
{
}

/// Once the budget is used up, no worker is requested.
pub proof fn law_exhausted_budget_requests_nothing(view: TaskAssignerView)
    requires
        view.options.worker_max_count > 0,
        view.options.worker_task_slots > 0,
        view.workers.len() >= view.options.worker_max_count,
    ensures
        requested_workers(view) == 0,
        requested_initial_workers(view) == 0,
{
    let slots = view.options.worker_task_slots as int;
    let lacking = enqueued_sets(view.queue) - vacant_count(view.workers);
    if lacking > 0 {
        assert((lacking + slots - 1) / slots >= 0) by (nonlinear_arith)
            requires
                lacking > 0,
                slots > 0,
        ;
    }
}

/// A worker that is gone, whether it was deactivated or failed to start, releases its share
/// of the budget; one that was not tracked releases nothing.
pub proof fn law_gone_worker_releases_budget(view: TaskAssignerView, id: u64)
    requires
        view.wf(),
    ensures
        has_key(view.workers, id) ==> worker_gone(view, id).workers.len() == view.workers.len() - 1,
        !has_key(view.workers, id) ==> worker_gone(view, id) == view,
        !has_key(worker_gone(view, id).workers, id),
        worker_gone(view, id).wf(),
{
    lemma_dropped(view.workers, id);
}

/// Requesting a worker and losing it before it registers leaves the scheduler as it was.
pub proof fn law_failed_start_undoes_request(view: TaskAssignerView, id: u64)
    requires
        view.wf(),
        !has_key(view.workers, id),
    ensures
        worker_gone(pending_added(view, id), id) == view,
{
    let next = pending_added(view, id).workers;
    assert(next[view.workers.len() as int].0 == id);
    lemma_stored(view.workers, id, WorkerView::Pending);
    lemma_key_index(next, view.workers.len() as int);
    assert(dropped(next, id) =~= view.workers);
}

/// Registering changes no worker count, and registering twice is as registering once.
pub proof fn law_activation_is_idempotent(view: TaskAssignerView, id: u64)
    requires
        view.wf(),
    ensures
        worker_activated(view, id).workers.len() == view.workers.len(),
        worker_activated(worker_activated(view, id), id) == worker_activated(view, id),
        worker_activated(view, id).wf(),
{
    lemma_stored(view.workers, id, fresh_worker(view.options.worker_task_slots));
}

/// A worker that was requested and has not registered is not idle, and neither is one that
/// is not tracked; one that has just registered is.
pub proof fn law_idle_workers_are_registered(view: TaskAssignerView, id: u64)
    requires
        view.wf(),
        !has_key(view.workers, id),
    ensures
        value_of(view.workers, id) is None,
        value_of(pending_added(view, id).workers, id) == Some(WorkerView::Pending),
        !worker_idle(WorkerView::Pending),
        value_of(worker_activated(pending_added(view, id), id).workers, id) == Some(
            fresh_worker(view.options.worker_task_slots),
        ),
        worker_idle(fresh_worker(view.options.worker_task_slots)),
{
    lemma_stored(view.workers, id, WorkerView::Pending);
    let pending = pending_added(view, id);
    lemma_stored(pending.workers, id, fresh_worker(view.options.worker_task_slots));
}

/// The positions of the free slots are distinct, in range, and free.
proof fn lemma_vacant_slots(slots: Seq<Seq<TaskKey>>, n: nat)
    requires
        n <= slots.len(),
        slots.len() <= usize::MAX,
    ensures
        forall|i: int|
            0 <= i < vacant_slots(slots, n).len() ==> (#[trigger] vacant_slots(slots, n)[i]) < n
                && slots[vacant_slots(slots, n)[i] as int].len() == 0,
        forall|i: int, j: int|
            0 <= i < j < vacant_slots(slots, n).len() ==> (#[trigger] vacant_slots(slots, n)[i])
                < (#[trigger] vacant_slots(slots, n)[j]),
    decreases n,
{
    if n > 0 {
        lemma_vacant_slots(slots, (n - 1) as nat);
        let init = vacant_slots(slots, (n - 1) as nat);
        let all = vacant_slots(slots, n);
        assert forall|i: int| 0 <= i < init.len() implies #[trigger] all[i] == init[i] by {}
        assert(all.len() > init.len() ==> all[init.len() as int] == n - 1);
    }
}

/// Whether a slot is free on a worker.
pub open spec fn is_vacant_slot(workers: Seq<(u64, WorkerView)>, slot: (WorkerId, usize)) -> bool {
    value_of(workers, slot.0.0) matches Some(WorkerView::Active { slots, .. }) && slot.1
        < slots.len() && slots[slot.1 as int].len() == 0
}

proof fn lemma_order_of(workers: Seq<(u64, WorkerView)>, count: usize, n: int)
    requires
        distinct_keys(workers),
        forall|i: int|
            0 <= i < workers.len() ==> has_slots((#[trigger] workers[i]).1, count as nat),
        0 <= n <= workers.len(),
    ensures
        ({
            let order = slot_order(free_slots(workers).skip(n));
            &&& forall|i: int|
                0 <= i < order.len() ==> is_vacant_slot(workers, #[trigger] order[i])
                    && key_index(workers, order[i].0.0) >= n
            &&& forall|i: int, j: int|
                0 <= i < j < order.len() ==> #[trigger] order[i] != #[trigger] order[j]
        }),
    decreases workers.len() - n,
{
    let free = free_slots(workers);
    let order = slot_order(free.skip(n));
    if n < workers.len() {
        lemma_order_of(workers, count, n + 1);
        let (id, worker) = workers[n];
        let rest = slot_order(free.skip(n + 1));
        assert(free.skip(n).drop_first() =~= free.skip(n + 1));
        let head = free[n].1.reverse().map_values(|slot: usize| (free[n].0, slot));
        assert(order == head + rest);
        lemma_key_index(workers, n);
        match worker {
            WorkerView::Active { slots, .. } => {
                lemma_vacant_slots(slots, slots.len());
            },
            WorkerView::Pending => {},
        }
        assert forall|i: int| 0 <= i < order.len() implies is_vacant_slot(
            workers,
            #[trigger] order[i],
        ) && key_index(workers, order[i].0.0) >= n by {
            if i < head.len() {
                assert(order[i] == (WorkerId(id), free[n].1[free[n].1.len() - 1 - i]));
            } else {
                assert(order[i] == rest[i - head.len()]);
            }
        }
        assert forall|i: int, j: int| 0 <= i < j < order.len() implies #[trigger] order[i]
            != #[trigger] order[j] by {
            let m = free[n].1.len();
            if j < head.len() {
                assert(order[i].1 == free[n].1[m - 1 - i]);
                assert(order[j].1 == free[n].1[m - 1 - j]);
            } else if i < head.len() {
                assert(order[j] == rest[j - head.len()]);
                assert(key_index(workers, order[j].0.0) >= n + 1);
                assert(order[i].0.0 == id);
            } else {
                assert(order[i] == rest[i - head.len()]);
                assert(order[j] == rest[j - head.len()]);
            }
        }
    } else {
        assert(free.skip(n).len() == 0);
    }
}

proof fn lemma_worker_sets_monotonic(region: RegionView, m: int, n: int)
    requires
        0 <= m <= n <= region.len(),
    ensures
        worker_sets(region.take(m)) <= worker_sets(region.take(n)),
        m < n && region[m].0 is Worker ==> worker_sets(region.take(m)) < worker_sets(
            region.take(n),
        ),
    decreases n - m,
{
    if m < n {
        lemma_worker_sets_monotonic(region, m, n - 1);
        assert(region.take(n).drop_last() =~= region.take(n - 1));
        if m == n - 1 {
            assert(region.take(n).last() == region[m]);
        }
    }
}

/// Every slot that is handed out comes from the order, and at most once.
proof fn lemma_queue_placed(queue: Seq<RegionView>, order: Seq<(WorkerId, usize)>)
    requires
        forall|i: int, j: int| 0 <= i < j < order.len() ==> #[trigger] order[i] != #[trigger] order[j],
    ensures
        ({
            let made = queue_placed(queue, order);
            &&& forall|i: int|
                0 <= i < made.len() ==> ((#[trigger] made[i]).1 matches TaskAssignment::Worker {
                    worker_id,
                    slot,
                } ==> order.contains((worker_id, slot)))
            &&& forall|i: int, j: int|
                0 <= i < j < made.len() && (#[trigger] made[i]).1 is Worker && (
                #[trigger] made[j]).1 is Worker ==> made[i].1 != made[j].1
        }),
    decreases queue.len(),
{
    let made = queue_placed(queue, order);
    if queue.len() > 0 && worker_sets(queue[0]) <= order.len() {
        let region = queue[0];
        let used = worker_sets(region) as int;
        let rest_order = order.skip(used);
        assert forall|i: int, j: int| 0 <= i < j < rest_order.len() implies #[trigger] rest_order[i]
            != #[trigger] rest_order[j] by {
            assert(order[used + i] != order[used + j]);
        }
        lemma_queue_placed(queue.drop_first(), rest_order);
        let head = placed(region, order);
        let rest = queue_placed(queue.drop_first(), rest_order);
        assert(made == head + rest);
        assert(region.take(region.len() as int) =~= region);
        // The slot of the task set at position `i` of the region.
        let at = |i: int| worker_sets(region.take(i)) as int;
        assert forall|i: int| 0 <= i < head.len() && (#[trigger] head[i]).1 is Worker implies 0
            <= at(i) < used && head[i].1 == (TaskAssignment::Worker {
            worker_id: order[at(i)].0,
            slot: order[at(i)].1,
        }) by {
            assert(region[i].0 is Worker);
            lemma_worker_sets_monotonic(region, i, region.len() as int);
        }
        assert forall|i: int| 0 <= i < made.len() implies ((
        #[trigger] made[i]).1 matches TaskAssignment::Worker { worker_id, slot }
            ==> order.contains((worker_id, slot))) by {
            if made[i].1 is Worker {
                if i < head.len() {
                    assert(made[i] == head[i]);
                    assert(order.contains(order[at(i)]));
                } else {
                    assert(made[i] == rest[i - head.len()]);
                    let slot = (made[i].1->worker_id, made[i].1->slot);
                    let k = choose|k: int| 0 <= k < rest_order.len() && rest_order[k] == slot;
                    assert(order[used + k] == slot);
                }
            }
        }
        assert forall|i: int, j: int|
            0 <= i < j < made.len() && (#[trigger] made[i]).1 is Worker && (
            #[trigger] made[j]).1 is Worker implies made[i].1 != made[j].1 by {
            if j < head.len() {
                assert(made[i] == head[i] && made[j] == head[j]);
                lemma_worker_sets_monotonic(region, i, j);
                assert(region[i].0 is Worker);
                assert(order[at(i)] != order[at(j)]);
            } else if i < head.len() {
                assert(made[i] == head[i] && made[j] == rest[j - head.len()]);
                let slot = (made[j].1->worker_id, made[j].1->slot);
                let k = choose|k: int| 0 <= k < rest_order.len() && rest_order[k] == slot;
                assert(order[at(i)] != order[used + k]);
            } else {
                assert(made[i] == rest[i - head.len()] && made[j] == rest[j - head.len()]);
            }
        }
    }
}

/// Task sets are placed on free slots of registered workers only, and no two on the same.
pub proof fn law_slots_are_vacant_and_used_once(view: TaskAssignerView)
    requires
        view.wf(),
    ensures
        forall|i: int|
            0 <= i < placements(view).len() ==> ((
            #[trigger] placements(view)[i]).1 matches TaskAssignment::Worker { worker_id, slot }
                ==> is_vacant_slot(view.workers, (worker_id, slot))),
        forall|i: int, j: int|
            0 <= i < j < placements(view).len() && (#[trigger] placements(view)[i]).1 is Worker && (
            #[trigger] placements(view)[j]).1 is Worker ==> placements(view)[i].1 != placements(
                view,
            )[j].1,
{
    let order = slot_order(free_slots(view.workers));
    assert(free_slots(view.workers).skip(0) =~= free_slots(view.workers));
    lemma_order_of(view.workers, view.options.worker_task_slots, 0);
    lemma_queue_placed(view.queue, order);
    let made = placements(view);
    assert forall|i: int| 0 <= i < made.len() implies ((
    #[trigger] made[i]).1 matches TaskAssignment::Worker { worker_id, slot } ==> is_vacant_slot(
        view.workers,
        (worker_id, slot),
    )) by {
        if made[i].1 is Worker {
            let slot = (made[i].1->worker_id, made[i].1->slot);
            let k = choose|k: int| 0 <= k < order.len() && order[k] == slot;
            assert(is_vacant_slot(view.workers, order[k]));
        }
    }
}

/// The task sets of several regions, in order.
pub open spec fn region_sets(queue: Seq<RegionView>) -> Seq<Seq<TaskSetEntry>>
    decreases queue.len(),
{
    if queue.len() == 0 {
        Seq::empty()
    } else {
        queue[0].map_values(|task: (TaskPlacement, Seq<TaskSetEntry>)| task.1) + region_sets(
            queue.drop_first(),
        )
    }
}

/// How many worker task slots several regions need.
pub open spec fn regions_need(queue: Seq<RegionView>) -> nat
    decreases queue.len(),
{
    if queue.len() == 0 {
        0
    } else {
        worker_sets(queue[0]) + regions_need(queue.drop_first())
    }
}

proof fn lemma_prefix_placed(queue: Seq<RegionView>, order: Seq<(WorkerId, usize)>)
    ensures
        ({
            let n = placeable(queue, order) as int;
            &&& n <= queue.len()
            &&& queue_placed(queue, order).map_values(
                |p: (Seq<TaskSetEntry>, TaskAssignment)| p.0,
            ) == region_sets(queue.take(n))
            &&& regions_need(queue.take(n)) <= order.len()
            &&& n < queue.len() ==> regions_need(queue.take(n)) + worker_sets(queue[n])
                > order.len()
        }),
    decreases queue.len(),
{
    let first = |p: (Seq<TaskSetEntry>, TaskAssignment)| p.0;
    let n = placeable(queue, order) as int;
    if queue.len() > 0 && worker_sets(queue[0]) <= order.len() {
        let rest = queue.drop_first();
        let rest_order = order.skip(worker_sets(queue[0]) as int);
        lemma_prefix_placed(rest, rest_order);
        assert(queue.take(n).drop_first() =~= rest.take(n - 1));
        assert(placed(queue[0], order).map_values(first) =~= queue[0].map_values(
            |task: (TaskPlacement, Seq<TaskSetEntry>)| task.1,
        ));
        assert(queue_placed(queue, order).map_values(first) =~= placed(queue[0], order).map_values(
            first,
        ) + queue_placed(rest, rest_order).map_values(first));
        if n < queue.len() {
            assert(rest[n - 1] == queue[n]);
        }
    } else {
        assert(queue.take(0) =~= Seq::empty());
        assert(queue_placed(queue, order).map_values(first) =~= Seq::empty());
        if queue.len() > 0 {
            assert(regions_need(queue.take(0)) == 0);
        }
    }
}

/// Regions are placed whole and in the order in which they were enqueued: what is placed
/// are the task sets of a prefix of the queue, in order, the rest of the queue stays, and
/// that prefix is the longest for which the free slots suffice.
pub proof fn law_regions_are_placed_in_order(view: TaskAssignerView)
    ensures
        placed_regions(view) <= view.queue.len(),
        placements(view).map_values(|p: (Seq<TaskSetEntry>, TaskAssignment)| p.0) == region_sets(
            view.queue.take(placed_regions(view) as int),
        ),
        tasks_assigned(view).queue == view.queue.skip(placed_regions(view) as int),
        regions_need(view.queue.take(placed_regions(view) as int)) <= slot_order(
            free_slots(view.workers),
        ).len(),
        placed_regions(view) < view.queue.len() ==> regions_need(
            view.queue.take(placed_regions(view) as int),
        ) + worker_sets(view.queue[placed_regions(view) as int]) > slot_order(
            free_slots(view.workers),
        ).len(),
{
    lemma_prefix_placed(view.queue, slot_order(free_slots(view.workers)));
    lemma_started_keeps(
        TaskAssignerView { queue: view.queue.skip(placed_regions(view) as int), ..view },
        placements(view),
    );
}

/// Starting task sets changes neither the queue, nor the options, nor who is tracked.
proof fn lemma_started_keeps(
    view: TaskAssignerView,
    made: Seq<(Seq<TaskSetEntry>, TaskAssignment)>,
)
    ensures
        all_started(view, made).queue == view.queue,
        all_started(view, made).options == view.options,
        all_started(view, made).workers.len() == view.workers.len(),
        forall|i: int|
            0 <= i < view.workers.len() ==> (#[trigger] all_started(view, made).workers[i]).0
                == view.workers[i].0,
    decreases made.len(),
{
    if made.len() > 0 {
        lemma_started_keeps(view, made.drop_last());
    }
}

/// Assigning tasks adds and loses no worker.
pub proof fn law_assignment_keeps_workers(view: TaskAssignerView)
    ensures
        tasks_assigned(view).workers.len() == view.workers.len(),
        forall|i: int|
            0 <= i < view.workers.len() ==> (#[trigger] tasks_assigned(view).workers[i]).0
                == view.workers[i].0,
{
    lemma_started_keeps(
        TaskAssignerView { queue: view.queue.skip(placed_regions(view) as int), ..view },
        placements(view),
    );
}

proof fn lemma_recorded(
    assignments: Seq<(TaskKey, TaskAssignment)>,
    keys: Seq<TaskKey>,
    assignment: TaskAssignment,
)
    requires
        distinct_keys(assignments),
    ensures
        distinct_keys(recorded(assignments, keys, assignment)),
        forall|k: TaskKey|
            keys.contains(k) ==> #[trigger] value_of(recorded(assignments, keys, assignment), k)
                == Some(assignment),
        forall|k: TaskKey|
            !keys.contains(k) ==> #[trigger] value_of(recorded(assignments, keys, assignment), k)
                == value_of(assignments, k),
    decreases keys.len(),
{
    if keys.len() > 0 {
        let init = keys.drop_last();
        lemma_recorded(assignments, init, assignment);
        lemma_stored(recorded(assignments, init, assignment), keys.last(), assignment);
        assert forall|k: TaskKey| keys.contains(k) <==> init.contains(k) || k == keys.last() by {
            if keys.contains(k) {
                let i = choose|i: int| 0 <= i < keys.len() && keys[i] == k;
                if i < init.len() {
                    assert(init[i] == k);
                }
            }
            if init.contains(k) {
                let i = choose|i: int| 0 <= i < init.len() && init[i] == k;
                assert(keys[i] == k);
            }
            assert(keys[keys.len() - 1] == keys.last());
        }
    }
}

proof fn lemma_all_recorded(
    view: TaskAssignerView,
    made: Seq<(Seq<TaskSetEntry>, TaskAssignment)>,
    n: int,
)
    requires
        distinct_keys(view.assignments),
        0 <= n <= made.len(),
        forall|i: int|
            0 <= i < made.len() ==> ((#[trigger] made[i]).1 matches TaskAssignment::Worker {
                worker_id,
                ..
            } ==> has_key(view.workers, worker_id.0)),
    ensures
        distinct_keys(all_started(view, made.take(n)).assignments),
        forall|i: int, k: TaskKey|
            #![trigger made[i], value_of(all_started(view, made.take(n)).assignments, k)]
            0 <= i < n && set_keys(made[i].0).contains(k) && (forall|j: int|
                i < j < n ==> !set_keys(#[trigger] made[j].0).contains(k)) ==> value_of(
                all_started(view, made.take(n)).assignments,
                k,
            ) == Some(made[i].1),
    decreases n,
{
    if n > 0 {
        lemma_all_recorded(view, made, n - 1);
        assert(made.take(n).drop_last() =~= made.take(n - 1));
        let before = all_started(view, made.take(n - 1));
        lemma_started_keeps(view, made.take(n - 1));
        lemma_recorded(before.assignments, set_keys(made[n - 1].0), made[n - 1].1);
        match made[n - 1].1 {
            TaskAssignment::Worker { worker_id, .. } => {
                let at = key_index(view.workers, worker_id.0);
                assert(before.workers[at].0 == worker_id.0);
            },
            TaskAssignment::Driver => {},
        }
        let after = all_started(view, made.take(n));
        assert(after.assignments == recorded(
            before.assignments,
            set_keys(made[n - 1].0),
            made[n - 1].1,
        ));
        assert forall|i: int, k: TaskKey|
            #![trigger made[i], value_of(after.assignments, k)]
            0 <= i < n && set_keys(made[i].0).contains(k) && (forall|j: int|
                i < j < n ==> !set_keys(#[trigger] made[j].0).contains(k)) implies value_of(
            after.assignments,
            k,
        ) == Some(made[i].1) by {
            if i < n - 1 {
                assert(!set_keys(made[n - 1].0).contains(k));
                assert(value_of(after.assignments, k) == value_of(before.assignments, k));
            }
        }
    }
}

/// Every task that is placed is found where it was placed last.
pub proof fn law_placed_tasks_are_found(view: TaskAssignerView, i: int, key: TaskKey)
    requires
        view.wf(),
        0 <= i < placements(view).len(),
        set_keys(placements(view)[i].0).contains(key),
        forall|j: int|
            i < j < placements(view).len() ==> !set_keys(
                #[trigger] placements(view)[j].0,
            ).contains(key),
    ensures
        value_of(tasks_assigned(view).assignments, key) == Some(placements(view)[i].1),
{
    let made = placements(view);
    let queued = TaskAssignerView {
        queue: view.queue.skip(placed_regions(view) as int),
        ..view
    };
    law_slots_are_vacant_and_used_once(view);
    assert forall|j: int| 0 <= j < made.len() implies ((
    #[trigger] made[j]).1 matches TaskAssignment::Worker { worker_id, .. } ==> has_key(
        queued.workers,
        worker_id.0,
    )) by {
        if made[j].1 is Worker {
            assert(is_vacant_slot(view.workers, (made[j].1->worker_id, made[j].1->slot)));
        }
    }
    lemma_all_recorded(queued, made, made.len() as int);
    assert(made.take(made.len() as int) =~= made);
    assert(value_of(all_started(queued, made.take(made.len() as int)).assignments, key) == Some(
        made[i].1,
    ));
}

proof fn lemma_with_tasks(tasks: Seq<TaskKey>, keys: Seq<TaskKey>, key: TaskKey)
    ensures
        with_tasks(tasks, keys).contains(key) <==> tasks.contains(key) || keys.contains(key),
    decreases keys.len(),
{
    if keys.len() > 0 {
        let init = keys.drop_last();
        lemma_with_tasks(tasks, init, key);
        let before = with_tasks(tasks, init);
        assert(keys =~= init.push(keys.last()));
        assert(keys.contains(key) <==> init.contains(key) || key == keys.last()) by {
            if init.contains(key) {
                let i = choose|i: int| 0 <= i < init.len() && init[i] == key;
                assert(keys[i] == key);
            }
            assert(keys[keys.len() - 1] == keys.last());
            if keys.contains(key) && key != keys.last() {
                let i = choose|i: int| 0 <= i < keys.len() && keys[i] == key;
                assert(init[i] == key);
            }
        }
        let after = with_tasks(tasks, keys);
        if before.contains(key) {
            let i = choose|i: int| 0 <= i < before.len() && before[i] == key;
            assert(after[i] == key);
        }
        if !before.contains(keys.last()) {
            assert(after[before.len() as int] == keys.last());
        }
        if after.contains(key) && !before.contains(key) {
            let i = choose|i: int| 0 <= i < after.len() && after[i] == key;
            if i < before.len() {
                assert(before[i] == key);
            }
        }
    }
}

proof fn lemma_slot_tasks(slots: Seq<Seq<TaskKey>>, key: TaskKey)
    ensures
        slot_tasks(slots).contains(key) <==> exists|s: int|
            0 <= s < slots.len() && (#[trigger] slots[s]).contains(key),
    decreases slots.len(),
{
    if slots.len() > 0 {
        let init = slots.drop_last();
        lemma_slot_tasks(init, key);
        let before = slot_tasks(init);
        let all = slot_tasks(slots);
        if all.contains(key) {
            let i = choose|i: int| 0 <= i < all.len() && all[i] == key;
            if i < before.len() {
                assert(before[i] == key);
                let s = choose|s: int| 0 <= s < init.len() && (#[trigger] init[s]).contains(key);
                assert(slots[s].contains(key));
            } else {
                assert(slots.last()[i - before.len()] == key);
                assert(slots[slots.len() - 1].contains(key));
            }
        }
        if exists|s: int| 0 <= s < slots.len() && (#[trigger] slots[s]).contains(key) {
            let s = choose|s: int| 0 <= s < slots.len() && (#[trigger] slots[s]).contains(key);
            if s < init.len() {
                assert(init[s].contains(key));
                let i = choose|i: int| 0 <= i < before.len() && before[i] == key;
                assert(all[i] == key);
            } else {
                let i = choose|i: int| 0 <= i < slots[s].len() && slots[s][i] == key;
                assert(all[before.len() + i] == key);
            }
        }
    }
}

/// Whether a placement puts a task on a worker.
pub open spec fn puts_on(
    placement: (Seq<TaskSetEntry>, TaskAssignment),
    id: u64,
    key: TaskKey,
) -> bool {
    placement.1 matches TaskAssignment::Worker { worker_id, .. } && worker_id.0 == id && set_keys(
        placement.0,
    ).contains(key)
}

/// Whether a slot is one of a registered worker.
spec fn is_slot(workers: Seq<(u64, WorkerView)>, id: u64, slot: usize) -> bool {
    value_of(workers, id) matches Some(WorkerView::Active { slots, .. }) && slot < slots.len()
}

proof fn lemma_started_tasks(
    view: TaskAssignerView,
    placement: (Seq<TaskSetEntry>, TaskAssignment),
    id: u64,
    key: TaskKey,
)
    requires
        distinct_keys(view.workers),
        placement.1 matches TaskAssignment::Worker { worker_id, slot } ==> is_slot(
            view.workers,
            worker_id.0,
            slot,
        ),
    ensures
        distinct_keys(started(view, placement).workers),
        forall|w: u64, slot: usize|
            is_slot(view.workers, w, slot) ==> #[trigger] is_slot(
                started(view, placement).workers,
                w,
                slot,
            ),
        worker_tasks(started(view, placement), id).contains(key) <==> worker_tasks(
            view,
            id,
        ).contains(key) || puts_on(placement, id, key),
        !(value_of(view.workers, id) matches Some(WorkerView::Active { .. })) ==> !(value_of(
            started(view, placement).workers,
            id,
        ) matches Some(WorkerView::Active { .. })),
{
    match placement.1 {
        TaskAssignment::Driver => {},
        TaskAssignment::Worker { worker_id, slot } => {
            let i = key_index(view.workers, worker_id.0);
            let worker = worker_with_set(view.workers[i].1, slot, placement.0);
            lemma_stored(view.workers, worker_id.0, worker);
            assert(started(view, placement).workers == stored(view.workers, worker_id.0, worker));
            if worker_id.0 == id {
                let slots = view.workers[i].1->slots;
                let at = slot as int;
                let after = slots.update(at, with_tasks(slots[at], set_keys(placement.0)));
                assert(worker_tasks(started(view, placement), id) == slot_tasks(after));
                lemma_slot_tasks(slots, key);
                lemma_slot_tasks(after, key);
                lemma_with_tasks(slots[at], set_keys(placement.0), key);
                if slot_tasks(slots).contains(key) {
                    let s = choose|s: int|
                        0 <= s < slots.len() && (#[trigger] slots[s]).contains(key);
                    assert(after[s].contains(key));
                }
                if set_keys(placement.0).contains(key) {
                    assert(after[at].contains(key));
                }
                if slot_tasks(after).contains(key) {
                    let s = choose|s: int|
                        0 <= s < after.len() && (#[trigger] after[s]).contains(key);
                    if s != at {
                        assert(slots[s].contains(key));
                    } else if slots[at].contains(key) {
                        assert(slots[s].contains(key));
                    }
                }
            }
        },
    }
}

proof fn lemma_all_started_tasks(
    view: TaskAssignerView,
    made: Seq<(Seq<TaskSetEntry>, TaskAssignment)>,
    id: u64,
    key: TaskKey,
)
    requires
        distinct_keys(view.workers),
        forall|i: int|
            0 <= i < made.len() ==> ((#[trigger] made[i]).1 matches TaskAssignment::Worker {
                worker_id,
                slot,
            } ==> is_slot(view.workers, worker_id.0, slot)),
    ensures
        distinct_keys(all_started(view, made).workers),
        forall|w: u64, slot: usize|
            is_slot(view.workers, w, slot) ==> #[trigger] is_slot(
                all_started(view, made).workers,
                w,
                slot,
            ),
        worker_tasks(all_started(view, made), id).contains(key) <==> worker_tasks(
            view,
            id,
        ).contains(key) || exists|i: int|
            0 <= i < made.len() && puts_on(#[trigger] made[i], id, key),
        !(value_of(view.workers, id) matches Some(WorkerView::Active { .. })) ==> !(value_of(
            all_started(view, made).workers,
            id,
        ) matches Some(WorkerView::Active { .. })),
    decreases made.len(),
{
    if made.len() > 0 {
        let init = made.drop_last();
        assert forall|i: int| 0 <= i < init.len() implies ((
        #[trigger] init[i]).1 matches TaskAssignment::Worker { worker_id, slot } ==> is_slot(
            view.workers,
            worker_id.0,
            slot,
        )) by {
            assert(init[i] == made[i]);
        }
        lemma_all_started_tasks(view, init, id, key);
        let last = made[made.len() - 1];
        let before = all_started(view, init);
        match last.1 {
            TaskAssignment::Worker { worker_id, slot } => {
                assert(is_slot(view.workers, worker_id.0, slot));
                assert(is_slot(before.workers, worker_id.0, slot));
            },
            TaskAssignment::Driver => {},
        }
        lemma_started_tasks(before, last, id, key);
        if exists|i: int| 0 <= i < init.len() && puts_on(#[trigger] init[i], id, key) {
            let i = choose|i: int| 0 <= i < init.len() && puts_on(#[trigger] init[i], id, key);
            assert(puts_on(made[i], id, key));
        }
        if exists|i: int| 0 <= i < made.len() && puts_on(#[trigger] made[i], id, key) {
            let i = choose|i: int| 0 <= i < made.len() && puts_on(#[trigger] made[i], id, key);
            if i < init.len() {
                assert(puts_on(init[i], id, key));
            }
        }
    }
}

/// After an assignment the tasks of a worker are those from before and those that were placed on
/// it. A worker that has not registered, or is not tracked, runs none.
pub proof fn law_workers_run_what_is_placed_on_them(view: TaskAssignerView, id: u64, key: TaskKey)
    requires
        view.wf(),
    ensures
        worker_tasks(tasks_assigned(view), id).contains(key) <==> worker_tasks(
            view,
            id,
        ).contains(key) || exists|i: int|
            0 <= i < placements(view).len() && puts_on(#[trigger] placements(view)[i], id, key),
        !(value_of(view.workers, id) matches Some(WorkerView::Active { .. })) ==> worker_tasks(
            view,
            id,
        ).len() == 0 && worker_tasks(tasks_assigned(view), id).len() == 0,
{
    let made = placements(view);
    let queued = TaskAssignerView { queue: view.queue.skip(placed_regions(view) as int), ..view };
    law_slots_are_vacant_and_used_once(view);
    assert forall|i: int| 0 <= i < made.len() implies ((
    #[trigger] made[i]).1 matches TaskAssignment::Worker { worker_id, slot } ==> is_slot(
        queued.workers,
        worker_id.0,
        slot,
    )) by {
        if made[i].1 is Worker {
            assert(is_vacant_slot(view.workers, (made[i].1->worker_id, made[i].1->slot)));
        }
    }
    assert(worker_tasks(queued, id) == worker_tasks(view, id));
    lemma_all_started_tasks(queued, made, id, key);
}

/// A slot in which one task ran is free again once that task has ended.
pub proof fn law_ended_task_frees_its_slot(entry: TaskSetEntry)
    ensures
        with_tasks(Seq::empty(), set_keys(seq![entry])) == seq![entry.key],
        without_task(seq![entry.key], entry.key) == Seq::<TaskKey>::empty(),
{
    let keys = set_keys(seq![entry]);
    assert(keys =~= seq![entry.key]);
    assert(keys.drop_last() =~= Seq::<TaskKey>::empty());
    assert(with_tasks(Seq::<TaskKey>::empty(), keys.drop_last()) == Seq::<TaskKey>::empty());
    assert(with_tasks(Seq::empty(), keys) =~= seq![entry.key]);
    assert(seq![entry.key].drop_last() =~= Seq::<TaskKey>::empty());
    reveal_with_fuel(Seq::filter, 2);
    assert(seq![entry.key].last() == entry.key);
}

proof fn lemma_released_none_left(producers: Seq<Producer>, job_id: u64, stage: Option<usize>)
    ensures
        !any_produced_by(released(producers, job_id, stage), job_id, stage),
        forall|p: Producer|
            #[trigger] released(producers, job_id, stage).contains(p) <==> producers.contains(p)
                && !produced_by(p, job_id, stage),
{
    let keep = |p: Producer| !produced_by(p, job_id, stage);
    broadcast use vstd::seq_lib::group_filter_ensures;

    let left = released(producers, job_id, stage);
    assert(left == producers.filter(keep));
    assert forall|p: Producer| #[trigger] left.contains(p) implies producers.contains(p)
        && !produced_by(p, job_id, stage) by {
        let i = choose|i: int| 0 <= i < left.len() && left[i] == p;
        assert(keep(left[i]));
        producers.lemma_filter_contains_rev(keep, p);
    }
    assert forall|p: Producer|
        producers.contains(p) && !produced_by(p, job_id, stage) implies #[trigger] left.contains(
        p,
    ) by {
        let i = choose|i: int| 0 <= i < producers.len() && producers[i] == p;
        assert(keep(producers[i]));
    }
    assert forall|i: int| 0 <= i < left.len() implies !produced_by(
        #[trigger] left[i],
        job_id,
        stage,
    ) by {
        assert(keep(left[i]));
    }
}

/// The producers of the local streams that a worker owns.
pub open spec fn worker_streams(worker: WorkerView) -> Seq<Producer> {
    match worker {
        WorkerView::Active { streams, .. } => streams,
        WorkerView::Pending => Seq::empty(),
    }
}

/// Once the local streams of a job (or of one of its stages) are released, nobody owns
/// one, and releasing them again changes nothing; streams of others stay where they are.
pub proof fn law_released_streams_are_gone(
    view: TaskAssignerView,
    job_id: u64,
    stage: Option<usize>,
)
    ensures
        !any_produced_by(
            local_streams_released(view, job_id, stage).driver.local_streams,
            job_id,
            stage,
        ),
        forall|i: int|
            0 <= i < view.workers.len() ==> !worker_owns_streams(
                (#[trigger] local_streams_released(view, job_id, stage).workers[i]).1,
                job_id,
                stage,
            ),
        forall|i: int, p: Producer|
            0 <= i < view.workers.len() && !produced_by(p, job_id, stage) ==> (
            #[trigger] worker_streams(
                local_streams_released(view, job_id, stage).workers[i].1,
            ).contains(p) <==> worker_streams(view.workers[i].1).contains(p)),
{
    lemma_released_none_left(view.driver.local_streams, job_id, stage);
    let after = local_streams_released(view, job_id, stage);
    assert forall|i: int| 0 <= i < view.workers.len() implies !worker_owns_streams(
        (#[trigger] after.workers[i]).1,
        job_id,
        stage,
    ) by {
        match view.workers[i].1 {
            WorkerView::Active { streams, .. } => {
                lemma_released_none_left(streams, job_id, stage);
            },
            WorkerView::Pending => {},
        }
    }
    assert forall|i: int, p: Producer|
        0 <= i < view.workers.len() && !produced_by(p, job_id, stage) implies (
    #[trigger] worker_streams(after.workers[i].1).contains(p) <==> worker_streams(
        view.workers[i].1,
    ).contains(p)) by {
        match view.workers[i].1 {
            WorkerView::Active { streams, .. } => {
                lemma_released_none_left(streams, job_id, stage);
            },
            WorkerView::Pending => {},
        }
    }
}

/// Once a task is excluded, no waiting region schedules it; the regions that do not
/// schedule it still wait.
pub proof fn law_excluded_task_does_not_wait(view: TaskAssignerView, key: TaskKey)
    ensures
        forall|i: int|
            0 <= i < task_excluded(view, key).queue.len() ==> !region_contains(
                #[trigger] task_excluded(view, key).queue[i],
                key,
            ),
        forall|region: RegionView|
            view.queue.contains(region) && !region_contains(region, key) ==> #[trigger] task_excluded(
                view,
                key,
            ).queue.contains(region),
{
    let keep = without_region_of(key);
    broadcast use vstd::seq_lib::group_filter_ensures;

    let left = task_excluded(view, key).queue;
    assert forall|i: int| 0 <= i < left.len() implies !region_contains(#[trigger] left[i], key) by {
        assert(keep(left[i]));
    }
    assert forall|region: RegionView|
        view.queue.contains(region) && !region_contains(region, key) implies #[trigger] left.contains(
        region,
    ) by {
        let i = choose|i: int| 0 <= i < view.queue.len() && view.queue[i] == region;
        assert(keep(view.queue[i]));
    }
}

/// As many workers are requested as the waiting regions need beyond the free slots, and not one
/// more; fewer only where the budget is used up.
pub proof fn law_requests_are_what_is_needed(view: TaskAssignerView)
    requires
        view.options.worker_task_slots > 0,
    ensures
        ({
            let n = requested_workers(view);
            let slots = view.options.worker_task_slots as int;
            let limit = view.options.worker_max_count;
            &&& n >= 0
            &&& vacant_count(view.workers) + n * slots >= enqueued_sets(view.queue) || (limit > 0
                && view.workers.len() + n >= limit) || (limit == 0 && n == usize::MAX)
            &&& n > 0 ==> vacant_count(view.workers) + (n - 1) * slots < enqueued_sets(view.queue)
        }),
{
    let n = requested_workers(view);
    let slots = view.options.worker_task_slots as int;
    let lacking = enqueued_sets(view.queue) - vacant_count(view.workers);
    let wanted = wanted_workers(view);
    if lacking > 0 {
        assert(wanted * slots >= lacking && (wanted - 1) * slots < lacking && wanted > 0)
            by (nonlinear_arith)
            requires
                slots > 0,
                lacking > 0,
                wanted == (lacking + slots - 1) / slots,
        ;
        if n > 0 {
            assert((n - 1) * slots <= (wanted - 1) * slots) by (nonlinear_arith)
                requires
                    n <= wanted,
                    slots > 0,
            ;
        }
    } else {
        assert(n * slots >= 0) by (nonlinear_arith)
            requires
                n >= 0,
                slots > 0,
        ;
    }
}

/// With the session so many workers are requested that, with those that live, there are as many
/// as the session is to begin with, or as many as are allowed where that is less.
pub proof fn law_initial_requests(view: TaskAssignerView)
    ensures
        ({
            let initial = view.options.worker_initial_count;
            let limit = view.options.worker_max_count;
            let live = view.workers.len();
            let after = live + requested_initial_workers(view);
            &&& requested_initial_workers(view) >= 0
            &&& live >= initial ==> after == live
            &&& live < initial && (limit == 0 || initial <= limit) ==> after == initial
            &&& live <= limit < initial && limit > 0 ==> after == limit
        }),
{
}

/// What happens to one worker leaves the others as they are.
pub proof fn law_workers_are_apart(view: TaskAssignerView, id: u64, other: u64)
    requires
        view.wf(),
        id != other,
    ensures
        value_of(pending_added(view, id).workers, other) == value_of(view.workers, other),
        value_of(worker_activated(view, id).workers, other) == value_of(view.workers, other),
        value_of(worker_gone(view, id).workers, other) == value_of(view.workers, other),
        has_key(view.workers, id) ==> pending_added(view, id) == view,
        value_of(view.workers, id) is None ==> worker_activated(view, id) == view,
        value_of(view.workers, id) matches Some(WorkerView::Active { .. }) ==> worker_activated(
            view,
            id,
        ) == view,
{
    lemma_stored(view.workers, id, WorkerView::Pending);
    lemma_stored(view.workers, id, fresh_worker(view.options.worker_task_slots));
    lemma_dropped(view.workers, id);
    if !has_key(view.workers, id) {
        assert(stored(view.workers, id, WorkerView::Pending) == pending_added(view, id).workers);
    }
}

/// A worker that registers has as many slots as it should, all free, and no streams.
pub proof fn law_fresh_workers_are_free(task_slots: usize, slot: int)
    requires
        0 <= slot < task_slots,
    ensures
        fresh_worker(task_slots) matches WorkerView::Active { slots, streams } && slots.len()
            == task_slots && slots[slot].len() == 0 && streams.len() == 0,
{
}

/// The workers that live are those that have registered and those that have not.
pub proof fn law_workers_are_counted(workers: Seq<(u64, WorkerView)>, id: u64, worker: WorkerView)
    ensures
        pending_count(workers) + active_count(workers) == workers.len(),
        pending_count(Seq::empty()) == 0,
        worker is Pending ==> pending_count(workers.push((id, worker))) == pending_count(workers)
            + 1 && active_count(workers.push((id, worker))) == active_count(workers),
        worker is Active ==> pending_count(workers.push((id, worker))) == pending_count(workers)
            && active_count(workers.push((id, worker))) == active_count(workers) + 1,
    decreases workers.len(),
{
    assert(workers.push((id, worker)).drop_last() =~= workers);
    if workers.len() > 0 {
        law_workers_are_counted(workers.drop_last(), workers.last().0, workers.last().1);
        assert(workers.drop_last().push(workers.last()) =~= workers);
    }
}

proof fn lemma_vacant_slot_listed(slots: Seq<Seq<TaskKey>>, n: nat, slot: usize)
    requires
        slot < n <= slots.len(),
        slots.len() <= usize::MAX,
        slots[slot as int].len() == 0,
    ensures
        vacant_slots(slots, n).contains(slot),
    decreases n,
{
    let init = vacant_slots(slots, (n - 1) as nat);
    let all = vacant_slots(slots, n);
    if slot < n - 1 {
        lemma_vacant_slot_listed(slots, (n - 1) as nat, slot);
        let i = choose|i: int| 0 <= i < init.len() && init[i] == slot;
        assert(all[i] == slot);
    } else {
        assert(all[init.len() as int] == slot);
    }
}

proof fn lemma_order_holds(free: Seq<(WorkerId, Seq<usize>)>, w: int, k: int)
    requires
        0 <= w < free.len(),
        0 <= k < free[w].1.len(),
    ensures
        slot_order(free).contains((free[w].0, free[w].1[k])),
    decreases free.len(),
{
    let order = slot_order(free);
    let head = free[0].1.reverse().map_values(|slot: usize| (free[0].0, slot));
    let rest = slot_order(free.drop_first());
    assert(order == head + rest);
    if w == 0 {
        let at = free[0].1.len() - 1 - k;
        assert(order[at] == (free[w].0, free[w].1[k]));
    } else {
        lemma_order_holds(free.drop_first(), w - 1, k);
        let slot = (free[w].0, free[w].1[k]);
        let i = choose|i: int| 0 <= i < rest.len() && rest[i] == slot;
        assert(order[head.len() + i] == slot);
    }
}

/// Every free slot of a registered worker is there to be handed out, and nothing else is.
pub proof fn law_every_vacant_slot_is_offered(view: TaskAssignerView, slot: (WorkerId, usize))
    requires
        view.wf(),
    ensures
        slot_order(free_slots(view.workers)).contains(slot) <==> is_vacant_slot(
            view.workers,
            slot,
        ),
{
    let free = free_slots(view.workers);
    let order = slot_order(free);
    assert(free.skip(0) =~= free);
    lemma_order_of(view.workers, view.options.worker_task_slots, 0);
    if order.contains(slot) {
        let i = choose|i: int| 0 <= i < order.len() && order[i] == slot;
        assert(is_vacant_slot(view.workers, order[i]));
    }
    if is_vacant_slot(view.workers, slot) {
        let w = key_index(view.workers, slot.0.0);
        match view.workers[w].1 {
            WorkerView::Active { slots, .. } => {
                assert(has_slots(view.workers[w].1, view.options.worker_task_slots as nat));
                lemma_vacant_slot_listed(slots, slots.len(), slot.1);
                let k = choose|k: int| 0 <= k < free[w].1.len() && free[w].1[k] == slot.1;
                lemma_order_holds(free, w, k);
                assert(free[w].0 == slot.0);
            },
            WorkerView::Pending => {},
        }
    }
}

proof fn lemma_order_len(workers: Seq<(u64, WorkerView)>)
    ensures
        slot_order(free_slots(workers)).len() == vacant_count(workers),
    decreases workers.len(),
{
    if workers.len() > 0 {
        let init = workers.drop_last();
        lemma_order_len(init);
        let entry = (
            WorkerId(workers.last().0),
            worker_vacant_slots(workers.last().1),
        );
        assert(free_slots(workers) =~= free_slots(init).push(entry));
        lemma_slot_order_grows(free_slots(init), entry);
    } else {
        assert(free_slots(workers).len() == 0);
    }
}

proof fn lemma_slot_order_grows(slots: Seq<(WorkerId, Seq<usize>)>, entry: (WorkerId, Seq<usize>))
    ensures
        slot_order(slots.push(entry)).len() == slot_order(slots).len() + entry.1.len(),
    decreases slots.len(),
{
    if slots.len() == 0 {
        assert(slots.push(entry).drop_first() =~= slots);
        assert(slot_order(slots).len() == 0);
    } else {
        lemma_slot_order_grows(slots.drop_first(), entry);
        assert(slots.push(entry).drop_first() =~= slots.drop_first().push(entry));
    }
}

/// The free slots that are counted are as many as can be handed out. So a region at the front of
/// the queue is placed exactly where there are as many free slots as it has task sets for
/// workers.
pub proof fn law_counted_slots_can_be_handed_out(view: TaskAssignerView)
    ensures
        slot_order(free_slots(view.workers)).len() == vacant_count(view.workers),
        view.queue.len() > 0 ==> (placed_regions(view) > 0 <==> worker_sets(view.queue[0])
            <= vacant_count(view.workers)),
        view.queue.len() == 0 ==> placed_regions(view) == 0,
{
    lemma_order_len(view.workers);
}

/// Where the task sets of several regions are to run, in order.
pub open spec fn region_places(queue: Seq<RegionView>) -> Seq<TaskPlacement>
    decreases queue.len(),
{
    if queue.len() == 0 {
        Seq::empty()
    } else {
        queue[0].map_values(|task: (TaskPlacement, Seq<TaskSetEntry>)| task.0) + region_places(
            queue.drop_first(),
        )
    }
}

/// The kind of place that a task set was put in.
pub open spec fn place_of() -> spec_fn((Seq<TaskSetEntry>, TaskAssignment)) -> TaskPlacement {
    |placement: (Seq<TaskSetEntry>, TaskAssignment)|
        match placement.1 {
            TaskAssignment::Driver => TaskPlacement::Driver,
            TaskAssignment::Worker { .. } => TaskPlacement::Worker,
        }
}

proof fn lemma_places(queue: Seq<RegionView>, order: Seq<(WorkerId, usize)>)
    ensures
        queue_placed(queue, order).map_values(place_of()) == region_places(
            queue.take(placeable(queue, order) as int),
        ),
        placeable(queue, order) <= queue.len(),
    decreases queue.len(),
{
    let n = placeable(queue, order) as int;
    if queue.len() > 0 && worker_sets(queue[0]) <= order.len() {
        let rest = queue.drop_first();
        let rest_order = order.skip(worker_sets(queue[0]) as int);
        lemma_places(rest, rest_order);
        assert(queue.take(n).drop_first() =~= rest.take(n - 1));
        let head = placed(queue[0], order);
        assert(head.map_values(place_of()) =~= queue[0].map_values(
            |task: (TaskPlacement, Seq<TaskSetEntry>)| task.0,
        ));
        assert(queue_placed(queue, order).map_values(place_of()) =~= head.map_values(place_of())
            + queue_placed(rest, rest_order).map_values(place_of()));
    } else {
        assert(queue.take(0) =~= Seq::<RegionView>::empty());
        assert(queue_placed(queue, order).map_values(place_of()) =~= Seq::<TaskPlacement>::empty());
    }
}

/// A task set runs where its region says: on the driver or on a worker.
pub proof fn law_task_sets_run_where_they_should(view: TaskAssignerView)
    ensures
        placements(view).map_values(place_of()) == region_places(
            view.queue.take(placed_regions(view) as int),
        ),
{
    lemma_places(view.queue, slot_order(free_slots(view.workers)));
}

/// The slots that regions need are as many as their task sets for workers.
pub proof fn law_needed_slots(
    region: RegionView,
    placement: TaskPlacement,
    entries: Seq<TaskSetEntry>,
    queue: Seq<RegionView>,
)
    ensures
        worker_sets(Seq::empty()) == 0,
        worker_sets(region.push((placement, entries))) == worker_sets(region) + (if placement
            is Worker {
            1int
        } else {
            0int
        }),
        enqueued_sets(Seq::empty()) == 0,
        enqueued_sets(queue.push(region)) == enqueued_sets(queue) + worker_sets(region),
{
    assert(region.push((placement, entries)).drop_last() =~= region);
    assert(queue.push(region).drop_last() =~= queue);
}

/// A slot holds the tasks that were put into it until they end, each once.
pub proof fn law_slots_hold_tasks(tasks: Seq<TaskKey>, keys: Seq<TaskKey>, ended: TaskKey, key: TaskKey)
    ensures
        with_tasks(tasks, keys).contains(key) <==> tasks.contains(key) || keys.contains(key),
        without_task(tasks, ended).contains(key) <==> tasks.contains(key) && key != ended,
        tasks.no_duplicates() ==> with_tasks(tasks, keys).no_duplicates(),
{
    broadcast use vstd::seq_lib::group_filter_ensures;

    lemma_with_tasks(tasks, keys, key);
    let left = without_task(tasks, ended);
    if left.contains(key) {
        tasks.lemma_filter_contains_rev(other_than(ended), key);
        let i = choose|i: int| 0 <= i < left.len() && left[i] == key;
        assert(other_than(ended)(left[i]));
    }
    if tasks.contains(key) && key != ended {
        let i = choose|i: int| 0 <= i < tasks.len() && tasks[i] == key;
        assert(other_than(ended)(tasks[i]));
    }
    if tasks.no_duplicates() {
        lemma_tasks_once(tasks, keys);
    }
}

proof fn lemma_tasks_once(tasks: Seq<TaskKey>, keys: Seq<TaskKey>)
    requires
        tasks.no_duplicates(),
    ensures
        with_tasks(tasks, keys).no_duplicates(),
    decreases keys.len(),
{
    if keys.len() > 0 {
        lemma_tasks_once(tasks, keys.drop_last());
    }
}

/// A worker is idle exactly where it has registered and neither runs a task nor owns a stream.
pub proof fn law_idle_workers(view: TaskAssignerView, id: u64, key: TaskKey)
    requires
        view.wf(),
        value_of(view.workers, id) matches Some(WorkerView::Active { .. }),
    ensures
        worker_tasks(view, id).contains(key) ==> !worker_idle(value_of(view.workers, id)->0),
        worker_streams(value_of(view.workers, id)->0).len() > 0 ==> !worker_idle(
            value_of(view.workers, id)->0,
        ),
        worker_tasks(view, id).len() == 0 && worker_streams(value_of(view.workers, id)->0).len()
            == 0 ==> worker_idle(value_of(view.workers, id)->0),
{
    let slots = value_of(view.workers, id)->0->slots;
    lemma_slot_tasks(slots, key);
    if worker_tasks(view, id).contains(key) {
        let s = choose|s: int| 0 <= s < slots.len() && (#[trigger] slots[s]).contains(key);
        assert(slots[s].len() > 0);
    }
    if worker_tasks(view, id).len() == 0 {
        assert forall|s: int| 0 <= s < slots.len() implies (#[trigger] slots[s]).len() == 0 by {
            if slots[s].len() > 0 {
                let task = slots[s][0];
                assert(slots[s].contains(task));
                lemma_slot_tasks(slots, task);
            }
        }
    }
}

proof fn lemma_with_producers(
    producers: Seq<Producer>,
    entries: Seq<TaskSetEntry>,
    kind: TaskOutputKind,
    producer: Producer,
)
    ensures
        with_producers(producers, entries, kind).contains(producer) <==> producers.contains(
            producer,
        ) || exists|i: int|
            0 <= i < entries.len() && (#[trigger] entries[i]).output == kind && producer_of(
                entries[i].key,
            ) == producer,
    decreases entries.len(),
{
    if entries.len() > 0 {
        let init = entries.drop_last();
        let last = entries.len() - 1;
        lemma_with_producers(producers, init, kind, producer);
        let before = with_producers(producers, init, kind);
        let after = with_producers(producers, entries, kind);
        if before.contains(producer) {
            let k = choose|k: int| 0 <= k < before.len() && before[k] == producer;
            assert(after[k] == producer);
            if !producers.contains(producer) {
                let i = choose|i: int|
                    0 <= i < init.len() && (#[trigger] init[i]).output == kind && producer_of(
                        init[i].key,
                    ) == producer;
                assert(entries[i] == init[i]);
            }
        }
        if after.contains(producer) && !before.contains(producer) {
            let k = choose|k: int| 0 <= k < after.len() && after[k] == producer;
            if k < before.len() {
                assert(before[k] == producer);
            }
            assert(entries[last].output == kind);
        }
        if exists|i: int|
            0 <= i < entries.len() && (#[trigger] entries[i]).output == kind && producer_of(
                entries[i].key,
            ) == producer {
            let i = choose|i: int|
                0 <= i < entries.len() && (#[trigger] entries[i]).output == kind && producer_of(
                    entries[i].key,
                ) == producer;
            if i < last {
                assert(init[i] == entries[i]);
            } else if !before.contains(producer) {
                assert(after[before.len() as int] == producer);
            }
        }
    }
}

/// The streams of a placed task set are tracked: the remote ones by the driver, wherever the set
/// runs, and the local ones by the process that runs it.
pub proof fn law_streams_are_tracked(
    view: TaskAssignerView,
    entries: Seq<TaskSetEntry>,
    assignment: TaskAssignment,
    i: int,
)
    requires
        view.wf(),
        0 <= i < entries.len(),
        assignment matches TaskAssignment::Worker { worker_id, .. } ==> (value_of(
            view.workers,
            worker_id.0,
        ) matches Some(WorkerView::Active { .. })),
    ensures
        ({
            let after = streams_tracked(view, (entries, assignment));
            let producer = (
                entries[i].key.job_id.0,
                entries[i].key.stage,
                entries[i].key.partition,
                entries[i].key.attempt,
            );
            &&& entries[i].output is Remote ==> after.driver.remote_streams.contains(producer)
            &&& entries[i].output is Local ==> match assignment {
                TaskAssignment::Driver => after.driver.local_streams.contains(producer),
                TaskAssignment::Worker { worker_id, .. } => {
                    value_of(after.workers, worker_id.0) matches Some(worker) && worker_streams(
                        worker,
                    ).contains(producer)
                },
            }
            &&& after.assignments == view.assignments
            &&& after.queue == view.queue
        }),
{
    let producer = producer_of(entries[i].key);
    lemma_with_producers(view.driver.remote_streams, entries, TaskOutputKind::Remote, producer);
    lemma_with_producers(view.driver.local_streams, entries, TaskOutputKind::Local, producer);
    match assignment {
        TaskAssignment::Worker { worker_id, .. } => {
            let at = key_index(view.workers, worker_id.0);
            let worker = worker_with_streams(view.workers[at].1, entries);
            lemma_stored(view.workers, worker_id.0, worker);
            assert(streams_tracked(view, (entries, assignment)).workers == stored(
                view.workers,
                worker_id.0,
                worker,
            ));
            lemma_with_producers(
                worker_streams(view.workers[at].1),
                entries,
                TaskOutputKind::Local,
                producer,
            );
        },
        TaskAssignment::Driver => {},
    }
}

/// Of the workers exactly those that own a stream of the job, or of the stage, are told to
/// release it, in their order.
pub proof fn law_owners_are_told(
    workers: Seq<(u64, WorkerView)>,
    job_id: u64,
    stage: Option<usize>,
    id: u64,
)
    ensures
        owning_workers(workers, job_id, stage).contains(
            TaskStreamAssignment::Worker { worker_id: WorkerId(id) },
        ) <==> exists|w: int, s: int|
            0 <= w < workers.len() && 0 <= s < worker_streams((#[trigger] workers[w]).1).len()
                && workers[w].0 == id && {
                let producer = #[trigger] worker_streams(workers[w].1)[s];
                producer.0 == job_id && (stage is None || producer.1 == stage->0)
            },
        owning_workers(workers, job_id, stage).len() <= workers.len(),
    decreases workers.len(),
{
    let told = TaskStreamAssignment::Worker { worker_id: WorkerId(id) };
    if workers.len() > 0 {
        let init = workers.drop_last();
        let last = workers.len() - 1;
        law_owners_are_told(init, job_id, stage, id);
        let before = owning_workers(init, job_id, stage);
        let after = owning_workers(workers, job_id, stage);
        if before.contains(told) {
            let k = choose|k: int| 0 <= k < before.len() && before[k] == told;
            assert(after[k] == told);
            let (w, s) = choose|w: int, s: int|
                0 <= w < init.len() && 0 <= s < worker_streams((#[trigger] init[w]).1).len()
                    && init[w].0 == id && {
                    let producer = #[trigger] worker_streams(init[w].1)[s];
                    producer.0 == job_id && (stage is None || producer.1 == stage->0)
                };
            assert(workers[w] == init[w]);
            assert(worker_streams(workers[w].1)[s] == worker_streams(init[w].1)[s]);
        }
        if after.contains(told) && !before.contains(told) {
            let k = choose|k: int| 0 <= k < after.len() && after[k] == told;
            if k < before.len() {
                assert(before[k] == told);
            }
            let streams = worker_streams(workers[last].1);
            let s = choose|s: int|
                0 <= s < streams.len() && produced_by(#[trigger] streams[s], job_id, stage);
            assert(worker_streams(workers[last].1)[s] == streams[s]);
        }
        if exists|w: int, s: int|
            0 <= w < workers.len() && 0 <= s < worker_streams((#[trigger] workers[w]).1).len()
                && workers[w].0 == id && {
                let producer = #[trigger] worker_streams(workers[w].1)[s];
                producer.0 == job_id && (stage is None || producer.1 == stage->0)
            } {
            let (w, s) = choose|w: int, s: int|
                0 <= w < workers.len() && 0 <= s < worker_streams((#[trigger] workers[w]).1).len()
                    && workers[w].0 == id && {
                    let producer = #[trigger] worker_streams(workers[w].1)[s];
                    producer.0 == job_id && (stage is None || producer.1 == stage->0)
                };
            if w < last {
                assert(init[w] == workers[w]);
                assert(worker_streams(init[w].1)[s] == worker_streams(workers[w].1)[s]);
            } else {
                assert(produced_by(worker_streams(workers[w].1)[s], job_id, stage));
                assert(worker_owns_streams(workers[w].1, job_id, stage));
                assert(after[before.len() as int] == told);
            }
        }
    }
}

/// A task that ends leaves the slot that it was in, and no other task does: not of that slot, not
/// of another slot, not of the driver and not of another worker. Its streams stay, and so does
/// where it was placed.
pub proof fn law_ended_tasks_leave_their_slots(
    view: TaskAssignerView,
    key: TaskKey,
    other: TaskKey,
    id: u64,
    n: int,
)
    requires
        view.wf(),
    ensures
        ({
            let after = task_ended(view, key);
            &&& after.assignments == view.assignments
            &&& after.queue == view.queue
            &&& after.options == view.options
            &&& value_of(view.assignments, key) is None ==> ended_at(view, key) is None && after
                == view
            &&& value_of(view.assignments, key) == Some(TaskAssignment::Driver) ==> {
                &&& ended_at(view, key) == Some(TaskAssignment::Driver)
                &&& !after.driver.tasks.contains(key)
                &&& other != key ==> (after.driver.tasks.contains(other)
                    <==> view.driver.tasks.contains(other))
                &&& after.workers == view.workers
                &&& after.driver.local_streams == view.driver.local_streams
                &&& after.driver.remote_streams == view.driver.remote_streams
            }
            &&& value_of(view.assignments, key) matches Some(
                TaskAssignment::Worker { worker_id, slot },
            ) ==> {
                &&& after.driver == view.driver
                &&& ended_at(view, key) is Some <==> has_key(view.workers, worker_id.0)
                &&& id != worker_id.0 ==> value_of(after.workers, id) == value_of(view.workers, id)
                &&& value_of(view.workers, worker_id.0) matches Some(
                    WorkerView::Active { slots, streams },
                ) ==> (value_of(after.workers, worker_id.0) matches Some(
                    WorkerView::Active { slots: left, streams: kept },
                ) && kept == streams && left.len() == slots.len() && (slot < slots.len()
                    ==> !left[slot as int].contains(key) && (other != key ==> (
                left[slot as int].contains(other) <==> slots[slot as int].contains(other)))) && (0
                    <= n < slots.len() && n != slot ==> left[n] == slots[n]))
            }
        }),
{
    law_slots_hold_tasks(view.driver.tasks, Seq::empty(), key, key);
    law_slots_hold_tasks(view.driver.tasks, Seq::empty(), key, other);
    match value_of(view.assignments, key) {
        Some(TaskAssignment::Worker { worker_id, slot }) => {
            if has_key(view.workers, worker_id.0) {
                let at = key_index(view.workers, worker_id.0);
                let worker = worker_without_task(view.workers[at].1, slot, key);
                lemma_stored(view.workers, worker_id.0, worker);
                assert(task_ended(view, key).workers == stored(view.workers, worker_id.0, worker));
                match view.workers[at].1 {
                    WorkerView::Active { slots, .. } => {
                        if slot < slots.len() {
                            law_slots_hold_tasks(slots[slot as int], Seq::empty(), key, key);
                            law_slots_hold_tasks(slots[slot as int], Seq::empty(), key, other);
                        }
                    },
                    _ => {},
                }
            }
        },
        _ => {},
    }
}

} // verus!

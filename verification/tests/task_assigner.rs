use sail::execution::id::{JobId, TaskKey, WorkerId};
use sail::execution::scheduling::{
    TaskAssignment, TaskOutputKind, TaskPlacement, TaskRegion, TaskSet, TaskSetEntry,
    TaskStreamAssignment,
};
use sail::execution::slot_assigner::TaskSlotAssigner;
use sail::execution::task_assigner::{TaskAssigner, TaskAssignerOptions};

fn options(initial_count: usize, task_slots: usize, max_count: usize) -> TaskAssignerOptions {
    TaskAssignerOptions::for_test(initial_count, task_slots, max_count)
}

fn key(job_id: u64, partition: usize) -> TaskKey {
    TaskKey {
        job_id: JobId::from(job_id),
        stage: 0,
        partition,
        attempt: 0,
    }
}

fn region(n: usize, placement: TaskPlacement, output: TaskOutputKind) -> TaskRegion {
    TaskRegion {
        tasks: (0..n)
            .map(|i| {
                (
                    placement,
                    TaskSet {
                        entries: vec![TaskSetEntry {
                            key: key(1, i),
                            output,
                        }],
                    },
                )
            })
            .collect(),
    }
}

/// Builds a region with `n` worker task sets, one task each.
fn worker_region(n: usize) -> TaskRegion {
    region(n, TaskPlacement::Worker, TaskOutputKind::Local)
}

fn enqueue_worker_tasks(assigner: &mut TaskAssigner, n: usize) {
    assigner.enqueue_tasks(worker_region(n));
}

#[test]
fn request_workers_respects_max_count_against_live_workers() {
    let mut a = TaskAssigner::new(options(0, 2, 4));
    enqueue_worker_tasks(&mut a, 10);
    // 10 tasks / 2 slots = 5 required, capped at max_count 4.
    assert_eq!(a.request_workers(), 4);
    assert_eq!(a.total_live_worker_count(), 0);

    for id in 1..=4 {
        a.add_pending_worker(WorkerId::from(id));
    }
    assert_eq!(a.total_live_worker_count(), 4);
    // Budget exhausted: no more workers may be requested.
    assert_eq!(a.request_workers(), 0);
}

#[test]
fn activate_then_deactivate_releases_budget() {
    let mut a = TaskAssigner::new(options(0, 2, 4));
    enqueue_worker_tasks(&mut a, 10);
    assert_eq!(a.request_workers(), 4);
    for id in 1..=4 {
        a.add_pending_worker(WorkerId::from(id));
    }

    for id in 1..=4 {
        a.activate_worker(WorkerId::from(id));
    }
    assert_eq!(a.total_live_worker_count(), 4);
    assert_eq!(a.request_workers(), 0);

    // Reap all four: the budget must be fully released so the next scale-up can
    // request them again. This is the regression test for the accounting leak.
    for id in 1..=4 {
        a.deactivate_worker(WorkerId::from(id));
    }
    assert_eq!(a.total_live_worker_count(), 0);
    assert_eq!(a.request_workers(), 4);
}

#[test]
fn initial_workers_are_charged_against_max_count() {
    let mut a = TaskAssigner::new(options(2, 2, 4));
    let n = a.request_initial_workers();
    assert_eq!(n, 2);
    for id in 1..=n {
        a.add_pending_worker(WorkerId::from(id as u64));
    }
    assert_eq!(a.total_live_worker_count(), 2);

    enqueue_worker_tasks(&mut a, 10);
    // max_count 4 minus the 2 live = 2 more allowed, not the full 4.
    assert_eq!(a.request_workers(), 2);
}

#[test]
fn failed_to_start_releases_budget() {
    let mut a = TaskAssigner::new(options(0, 2, 4));
    enqueue_worker_tasks(&mut a, 8);
    assert_eq!(a.request_workers(), 4);
    a.add_pending_worker(WorkerId::from(1));
    a.add_pending_worker(WorkerId::from(2));
    assert_eq!(a.total_live_worker_count(), 2);

    a.track_worker_failed_to_start(WorkerId::from(1));
    assert_eq!(a.total_live_worker_count(), 1);
    // Budget freed: 4 workers needed, 1 live → 3 more allowed.
    assert_eq!(a.request_workers(), 3);
}

#[test]
fn pending_worker_is_not_idle() {
    let mut a = TaskAssigner::new(options(0, 2, 4));
    a.add_pending_worker(WorkerId::from(1));
    assert!(!a.is_worker_idle(WorkerId::from(1)));
    assert!(!a.is_worker_idle(WorkerId::from(999)));
}

#[test]
fn is_task_queue_empty_reflects_enqueued_regions() {
    let mut a = TaskAssigner::new(options(0, 2, 4));
    assert!(a.is_task_queue_empty());
    enqueue_worker_tasks(&mut a, 3);
    assert!(!a.is_task_queue_empty());
}

#[test]
fn activate_is_idempotent_and_does_not_double_count() {
    let mut a = TaskAssigner::new(options(0, 2, 4));
    a.add_pending_worker(WorkerId::from(1));
    a.activate_worker(WorkerId::from(1));
    // Second activation is a no-op (warn), not a budget change.
    a.activate_worker(WorkerId::from(1));
    assert_eq!(a.total_live_worker_count(), 1);
}

#[test]
fn tasks_fill_workers_one_after_the_other() {
    let mut a = TaskAssigner::new(options(0, 2, 4));
    for id in 1..=2 {
        a.add_pending_worker(WorkerId::from(id));
        a.activate_worker(WorkerId::from(id));
    }
    assert_eq!(a.pending_worker_count(), 0);
    assert_eq!(a.active_worker_count(), 2);
    assert!(a.is_worker_idle(WorkerId::from(1)));
    enqueue_worker_tasks(&mut a, 3);
    let assignments = a.assign_tasks();
    assert_eq!(assignments.len(), 3);
    let workers: Vec<TaskAssignment> = assignments.iter().map(|x| x.assignment).collect();
    let on = |worker_id: u64, slot: usize| TaskAssignment::Worker {
        worker_id: WorkerId(worker_id),
        slot,
    };
    assert_eq!(workers, vec![on(1, 1), on(1, 0), on(2, 1)]);
    assert!(a.is_task_queue_empty());
    assert!(!a.is_worker_idle(WorkerId::from(1)));
    assert_eq!(a.find_worker_tasks(WorkerId(2)), vec![key(1, 2)]);
    assert_eq!(a.get(&key(1, 1)), Some(on(1, 0)));

    assert_eq!(a.unassign_task(&key(1, 2)), Some(on(2, 1)));
    assert_eq!(a.unassign_task(&key(2, 2)), None);
    assert!(a.is_worker_idle(WorkerId::from(2)));
}

#[test]
fn regions_wait_for_enough_slots() {
    let mut a = TaskAssigner::new(options(0, 2, 4));
    a.add_pending_worker(WorkerId::from(1));
    a.activate_worker(WorkerId::from(1));
    enqueue_worker_tasks(&mut a, 3);
    assert!(a.assign_tasks().is_empty());
    assert!(!a.is_task_queue_empty());
    a.exclude_task(&key(1, 2));
    assert!(a.is_task_queue_empty());
}

#[test]
fn local_streams_keep_workers_busy() {
    let mut a = TaskAssigner::new(options(0, 1, 0));
    for id in 1..=2 {
        a.add_pending_worker(WorkerId::from(id));
        a.activate_worker(WorkerId::from(id));
    }
    a.enqueue_tasks(worker_region(2));
    let assignments = a.assign_tasks();
    a.track_streams(&assignments);
    a.unassign_task(&key(1, 0));
    a.unassign_task(&key(1, 1));
    assert!(!a.is_worker_idle(WorkerId(1)));
    // Another job owns nothing.
    assert!(a.untrack_local_streams(JobId(2), None).is_empty());
    // Another stage neither.
    assert!(a.untrack_local_streams(JobId(1), Some(7)).is_empty());
    assert_eq!(
        a.untrack_local_streams(JobId(1), Some(0)),
        vec![
            TaskStreamAssignment::Worker {
                worker_id: WorkerId(1)
            },
            TaskStreamAssignment::Worker {
                worker_id: WorkerId(2)
            },
        ]
    );
    assert!(a.is_worker_idle(WorkerId(1)));
    assert!(a.is_worker_idle(WorkerId(2)));
}

#[test]
fn driver_tasks_need_no_worker() {
    let mut a = TaskAssigner::new(options(0, 1, 0));
    a.enqueue_tasks(region(2, TaskPlacement::Driver, TaskOutputKind::Remote));
    assert_eq!(a.request_workers(), 0);
    let assignments = a.assign_tasks();
    assert_eq!(assignments.len(), 2);
    assert_eq!(assignments[0].assignment, TaskAssignment::Driver);
    a.track_streams(&assignments);
    assert!(!a.untrack_remote_streams(JobId(3), None));
    assert!(a.untrack_remote_streams(JobId(1), None));
    assert!(!a.untrack_remote_streams(JobId(1), None));
}

#[test]
fn workers_without_a_limit() {
    let mut a = TaskAssigner::new(options(0, 2, 0));
    enqueue_worker_tasks(&mut a, 10);
    assert_eq!(a.request_workers(), 5);
}

#[test]
fn initial_workers_are_those_that_are_missing() {
    let mut a = TaskAssigner::new(options(3, 2, 0));
    assert_eq!(a.request_initial_workers(), 3);
    a.add_pending_worker(WorkerId::from(1));
    // Without a limit too, workers that live already are not asked for again.
    assert_eq!(a.request_initial_workers(), 2);
    for id in 2..=4 {
        a.add_pending_worker(WorkerId::from(id));
    }
    assert_eq!(a.request_initial_workers(), 0);
}

#[test]
fn workers_run_what_is_placed_on_them() {
    let mut a = TaskAssigner::new(options(0, 2, 4));
    a.add_pending_worker(WorkerId::from(1));
    assert!(a.find_worker_tasks(WorkerId(1)).is_empty());
    a.activate_worker(WorkerId::from(1));
    enqueue_worker_tasks(&mut a, 1);
    a.assign_tasks();
    let former = a.find_worker_tasks(WorkerId(1));
    assert_eq!(former, vec![key(1, 0)]);
    a.enqueue_tasks(TaskRegion {
        tasks: vec![(
            TaskPlacement::Worker,
            TaskSet {
                entries: vec![TaskSetEntry {
                    key: key(2, 5),
                    output: TaskOutputKind::Local,
                }],
            },
        )],
    });
    assert_eq!(a.assign_tasks().len(), 1);
    let tasks = a.find_worker_tasks(WorkerId(1));
    assert_eq!(tasks.len(), 2);
    assert!(tasks.contains(&key(1, 0)));
    assert!(tasks.contains(&key(2, 5)));
}

#[test]
fn refused_regions_use_up_the_slots() {
    let mut slots = TaskSlotAssigner::new(vec![(WorkerId(1), vec![0, 1])]);
    let region = slots.try_assign_task_region(worker_region(3)).unwrap_err();
    assert_eq!(region.tasks.len(), 3);
    assert!(slots.try_assign_task_region(worker_region(1)).is_err());
}

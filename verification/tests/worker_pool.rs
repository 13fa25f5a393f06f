use std::time::Duration;

use sail::execution::id::{DriverId, WorkerId};
use sail::execution::task_assigner::TaskAssignerOptions;
use sail::execution::worker_pool::{
    DriverOptions, RetryStrategy, ShuffleBackendKind, WorkerPool, WorkerPoolOptions,
};

fn pool_options(spawn_retry_strategy: RetryStrategy) -> WorkerPoolOptions {
    WorkerPoolOptions {
        enable_tls: false,
        session_id: "session".to_string(),
        driver_id: DriverId(1),
        driver_server_port: 0,
        driver_external_host: "localhost".to_string(),
        driver_external_port: 0,
        worker_max_idle_time: Duration::from_secs(60),
        worker_heartbeat_interval: Duration::from_secs(1),
        worker_heartbeat_timeout: Duration::from_secs(10),
        worker_launch_timeout: Duration::from_secs(120),
        task_stream_buffer: 16,
        task_stream_creation_timeout: Duration::from_secs(30),
        rpc_retry_strategy: RetryStrategy::Fixed {
            max_count: 0,
            delay: Duration::from_secs(0),
        },
        spawn_retry_strategy,
        shuffle_backend: ShuffleBackendKind {
            name: "flight".to_string(),
        },
    }
}

fn pool() -> WorkerPool {
    WorkerPool::new(pool_options(RetryStrategy::Fixed {
        max_count: 0,
        delay: Duration::from_secs(0),
    }))
}

#[test]
fn reserve_worker_ids_returns_unique_consecutive_ids() {
    let mut p = pool();
    let ids = p.reserve_worker_ids(3).expect("reserve ids");
    assert_eq!(ids.len(), 3);
    // Ids start at 1 and advance consecutively.
    assert_eq!(ids[0], WorkerId::from(1));
    assert_eq!(ids[1], WorkerId::from(2));
    assert_eq!(ids[2], WorkerId::from(3));

    // Subsequent reservations continue from the last id.
    let more = p.reserve_worker_ids(2).expect("reserve more");
    assert_eq!(more, vec![WorkerId::from(4), WorkerId::from(5)]);
}

#[test]
fn reserve_worker_ids_zero_returns_empty() {
    let mut p = pool();
    let ids = p.reserve_worker_ids(0).expect("reserve zero");
    assert!(ids.is_empty());
}

fn retry_pool(max_count: usize, delay_secs: u64) -> WorkerPool {
    WorkerPool::new(pool_options(RetryStrategy::Fixed {
        max_count,
        delay: Duration::from_secs(delay_secs),
    }))
}

#[test]
fn spawn_retry_delay_advances_then_exhausts() {
    let mut p = retry_pool(2, 5);
    assert!(!p.has_pending_spawn_retry());
    assert_eq!(p.next_spawn_retry_delay(), Some(Duration::from_secs(5)));
    assert!(p.has_pending_spawn_retry());
    assert_eq!(p.next_spawn_retry_delay(), Some(Duration::from_secs(5)));
    // Exhausted: no more re-spawn delays. The retry armed by the first call is
    // still in flight, so the armed flag must remain set until it fires.
    assert_eq!(p.next_spawn_retry_delay(), None);
    assert!(p.has_pending_spawn_retry());
}

#[test]
fn concurrent_failures_do_not_clear_an_armed_retry() {
    // Regression: three workers fail close together (e.g. all stuck `Pending`).
    // The first arms a retry; the later ones exhaust the shared iterator and get
    // `None`. They must NOT clear the armed flag, otherwise pending tasks would
    // fail on the scheduling timeout while a retry is still in flight.
    let mut p = retry_pool(1, 5);
    assert_eq!(p.next_spawn_retry_delay(), Some(Duration::from_secs(5)));
    assert!(p.has_pending_spawn_retry());
    assert_eq!(p.next_spawn_retry_delay(), None);
    assert!(p.has_pending_spawn_retry());
    assert_eq!(p.next_spawn_retry_delay(), None);
    assert!(p.has_pending_spawn_retry());

    // The retry eventually fires and scales up; only then is it disarmed.
    p.fire_spawn_retry();
    assert!(!p.has_pending_spawn_retry());
}

#[test]
fn spawn_retry_resets_after_fire() {
    let mut p = retry_pool(2, 5);
    assert_eq!(p.next_spawn_retry_delay(), Some(Duration::from_secs(5)));
    assert!(p.has_pending_spawn_retry());
    // The delayed retry event fired and scaled up; the retry is no longer armed.
    p.fire_spawn_retry();
    assert!(!p.has_pending_spawn_retry());
}

#[test]
fn spawn_retry_resets_after_registration() {
    let mut p = retry_pool(2, 5);
    assert_eq!(p.next_spawn_retry_delay(), Some(Duration::from_secs(5)));
    // A worker registered successfully: the retry cycle must start fresh.
    p.reset_spawn_retry();
    assert!(!p.has_pending_spawn_retry());
    assert_eq!(p.next_spawn_retry_delay(), Some(Duration::from_secs(5)));
}

#[test]
fn spawn_retry_with_no_attempts_returns_none() {
    let mut p = retry_pool(0, 5);
    assert_eq!(p.next_spawn_retry_delay(), None);
    assert!(!p.has_pending_spawn_retry());
}

#[test]
fn options_come_from_those_of_the_driver() {
    let driver = DriverOptions {
        enable_tls: true,
        session_id: "s".to_string(),
        driver_id: DriverId(7),
        driver_server_port: 1,
        driver_external_host: "host".to_string(),
        driver_external_port: 2,
        worker_initial_count: 3,
        worker_task_slots: 4,
        worker_max_count: 5,
        worker_max_idle_time: Duration::from_secs(6),
        worker_heartbeat_interval: Duration::from_secs(7),
        worker_heartbeat_timeout: Duration::from_secs(8),
        worker_launch_timeout: Duration::from_secs(9),
        task_stream_buffer: 10,
        task_stream_creation_timeout: Duration::from_secs(11),
        rpc_retry_strategy: RetryStrategy::Fixed {
            max_count: 12,
            delay: Duration::from_secs(13),
        },
        spawn_retry_strategy: RetryStrategy::Fixed {
            max_count: 14,
            delay: Duration::from_secs(15),
        },
        shuffle_backend: ShuffleBackendKind {
            name: "flight".to_string(),
        },
    };
    let pool = WorkerPoolOptions::from(&driver);
    assert!(pool.enable_tls);
    assert_eq!(pool.driver_external_host, "host");
    assert_eq!(pool.worker_launch_timeout, Duration::from_secs(9));
    assert_eq!(pool.shuffle_backend.name, "flight");
    let assigner = TaskAssignerOptions::from(&driver);
    assert_eq!(assigner, TaskAssignerOptions::for_test(3, 4, 5));
}

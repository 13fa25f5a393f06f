use std::time::Duration;

use vstd::prelude::*;
use vstd::std_specs::convert::FromSpecImpl;
use vstd::string::*;

use crate::execution::error::ExecutionError;
use crate::execution::id::{DriverId, IdGenerator, WorkerId};

verus! {

/// How often to try again, and how long to wait before each try.
#[derive(Debug, Clone, Copy)]
pub enum RetryStrategy {
    Fixed { max_count: usize, delay: Duration },
}

/// How the tasks exchange data, by name.
#[derive(Debug)]
pub struct ShuffleBackendKind {
    pub name: String,
}

impl Clone for ShuffleBackendKind {
    fn clone(&self) -> (kind: ShuffleBackendKind)
        ensures
            kind == *self,
    {
        ShuffleBackendKind { name: self.name.clone() }
    }
}

/// The options of a driver that concern its workers.
#[derive(Debug)]
pub struct DriverOptions {
    pub enable_tls: bool,
    pub session_id: String,
    pub driver_id: DriverId,
    pub driver_server_port: u16,
    pub driver_external_host: String,
    pub driver_external_port: u16,
    pub worker_initial_count: usize,
    pub worker_task_slots: usize,
    pub worker_max_count: usize,
    pub worker_max_idle_time: Duration,
    pub worker_heartbeat_interval: Duration,
    pub worker_heartbeat_timeout: Duration,
    pub worker_launch_timeout: Duration,
    pub task_stream_buffer: usize,
    pub task_stream_creation_timeout: Duration,
    pub rpc_retry_strategy: RetryStrategy,
    pub spawn_retry_strategy: RetryStrategy,
    pub shuffle_backend: ShuffleBackendKind,
}

#[derive(Debug)]
pub struct WorkerPoolOptions {
    pub enable_tls: bool,
    pub session_id: String,
    pub driver_id: DriverId,
    pub driver_server_port: u16,
    pub driver_external_host: String,
    pub driver_external_port: u16,
    pub worker_max_idle_time: Duration,
    pub worker_heartbeat_interval: Duration,
    pub worker_heartbeat_timeout: Duration,
    pub worker_launch_timeout: Duration,
    pub task_stream_buffer: usize,
    pub task_stream_creation_timeout: Duration,
    pub rpc_retry_strategy: RetryStrategy,
    pub spawn_retry_strategy: RetryStrategy,
    pub shuffle_backend: ShuffleBackendKind,
}

impl<'a> From<&'a DriverOptions> for WorkerPoolOptions {
    fn from(options: &'a DriverOptions) -> (pool: WorkerPoolOptions) {
        WorkerPoolOptions {
            enable_tls: options.enable_tls,
            session_id: options.session_id.clone(),
            driver_id: options.driver_id,
            driver_server_port: options.driver_server_port,
            driver_external_host: options.driver_external_host.clone(),
            driver_external_port: options.driver_external_port,
            worker_max_idle_time: options.worker_max_idle_time,
            worker_heartbeat_interval: options.worker_heartbeat_interval,
            worker_heartbeat_timeout: options.worker_heartbeat_timeout,
            worker_launch_timeout: options.worker_launch_timeout,
            task_stream_buffer: options.task_stream_buffer,
            task_stream_creation_timeout: options.task_stream_creation_timeout,
            rpc_retry_strategy: options.rpc_retry_strategy,
            spawn_retry_strategy: options.spawn_retry_strategy,
            shuffle_backend: options.shuffle_backend.clone(),
        }
    }
}

impl<'a> FromSpecImpl<&'a DriverOptions> for WorkerPoolOptions {
    open spec fn obeys_from_spec() -> bool {
        true
    }

    open spec fn from_spec(options: &'a DriverOptions) -> WorkerPoolOptions {
        WorkerPoolOptions {
            enable_tls: options.enable_tls,
            session_id: options.session_id,
            driver_id: options.driver_id,
            driver_server_port: options.driver_server_port,
            driver_external_host: options.driver_external_host,
            driver_external_port: options.driver_external_port,
            worker_max_idle_time: options.worker_max_idle_time,
            worker_heartbeat_interval: options.worker_heartbeat_interval,
            worker_heartbeat_timeout: options.worker_heartbeat_timeout,
            worker_launch_timeout: options.worker_launch_timeout,
            task_stream_buffer: options.task_stream_buffer,
            task_stream_creation_timeout: options.task_stream_creation_timeout,
            rpc_retry_strategy: options.rpc_retry_strategy,
            spawn_retry_strategy: options.spawn_retry_strategy,
            shuffle_backend: options.shuffle_backend,
        }
    }
}

impl<'a> From<&'a DriverOptions> for crate::execution::task_assigner::TaskAssignerOptions {
    fn from(options: &'a DriverOptions) -> (assigner:
        crate::execution::task_assigner::TaskAssignerOptions) {
        crate::execution::task_assigner::TaskAssignerOptions {
            worker_initial_count: options.worker_initial_count,
            worker_task_slots: options.worker_task_slots,
            worker_max_count: options.worker_max_count,
        }
    }
}

impl<'a> FromSpecImpl<&'a DriverOptions> for crate::execution::task_assigner::TaskAssignerOptions {
    open spec fn obeys_from_spec() -> bool {
        true
    }

    open spec fn from_spec(
        options: &'a DriverOptions,
    ) -> crate::execution::task_assigner::TaskAssignerOptions {
        crate::execution::task_assigner::TaskAssignerOptions {
            worker_initial_count: options.worker_initial_count,
            worker_task_slots: options.worker_task_slots,
            worker_max_count: options.worker_max_count,
        }
    }
}

/// What the worker pool remembers of ids and of spawning again.
#[verifier::ext_equal]
pub struct WorkerPoolView {
    /// The id that the next worker gets.
    pub next_id: u64,
    /// How often a failed worker may be spawned again.
    pub max_retries: nat,
    /// The wait before each such spawn.
    pub retry_delay: Duration,
    /// How many of those spawns are left, once one has been asked for.
    pub retries_left: Option<nat>,
    /// Whether a spawn is due that has not fired yet.
    pub retry_armed: bool,
}

impl WorkerPoolView {
    /// How many spawns are left before the pool gives up.
    pub open spec fn remaining(self) -> nat {
        match self.retries_left {
            Some(left) => left,
            None => self.max_retries,
        }
    }
}

/// The pool after a failed worker asks for a replacement.
pub open spec fn retry_taken(view: WorkerPoolView) -> WorkerPoolView {
    if view.remaining() > 0 {
        WorkerPoolView {
            retries_left: Some((view.remaining() - 1) as nat),
            retry_armed: true,
            ..view
        }
    } else {
        WorkerPoolView { retries_left: Some(0), ..view }
    }
}

/// The wait that a failed worker is answered.
pub open spec fn retry_answer(view: WorkerPoolView) -> Option<Duration> {
    if view.remaining() > 0 {
        Some(view.retry_delay)
    } else {
        None
    }
}

/// The pool after the due spawn fires.
pub open spec fn retry_fired(view: WorkerPoolView) -> WorkerPoolView {
    WorkerPoolView { retry_armed: false, ..view }
}

/// The pool after a worker registers.
pub open spec fn retry_reset(view: WorkerPoolView) -> WorkerPoolView {
    WorkerPoolView { retries_left: None, retry_armed: false, ..view }
}

/// Hands out worker ids and decides when to spawn a failed worker again.
#[derive(Debug)]
pub struct WorkerPool {
    options: WorkerPoolOptions,
    worker_id_generator: IdGenerator,
    /// How many delays are left to hand out between re-spawn attempts. Rebuilt from the
    /// strategy on the first failure and reset once a worker registers successfully.
    spawn_retries_left: Option<usize>,
    /// Whether a re-spawn retry is currently armed (a delayed retry event has been
    /// scheduled and not yet fired). While this is set, pending tasks must not fail on the
    /// scheduling timeout because a replacement worker may still come up.
    spawn_retry_armed: bool,
}

impl View for WorkerPool {
    type V = WorkerPoolView;

    closed spec fn view(&self) -> WorkerPoolView {
        let RetryStrategy::Fixed { max_count, delay } = self.options.spawn_retry_strategy;
        WorkerPoolView {
            next_id: self.worker_id_generator.upcoming(),
            max_retries: max_count as nat,
            retry_delay: delay,
            retries_left: match self.spawn_retries_left {
                Some(left) => Some(left as nat),
                None => None,
            },
            retry_armed: self.spawn_retry_armed,
        }
    }
}

impl WorkerPool {
    pub fn new(options: WorkerPoolOptions) -> (pool: WorkerPool)
        ensures
            ({
                let RetryStrategy::Fixed { max_count, delay } = options.spawn_retry_strategy;
                pool@ == (WorkerPoolView {
                    next_id: 1,
                    max_retries: max_count as nat,
                    retry_delay: delay,
                    retries_left: None,
                    retry_armed: false,
                })
            }),
    {
        WorkerPool {
            options,
            worker_id_generator: IdGenerator::new(),
            spawn_retries_left: None,
            spawn_retry_armed: false,
        }
    }

    /// Reserves `n` fresh worker ids ahead of spawning. The caller marks each id as pending
    /// in the task assigner before the worker is started.
    ///
    /// Returns consecutive ids, or an error where the ids run out before `n` are reserved.
    pub fn reserve_worker_ids(&mut self, n: usize) -> (ids: Result<Vec<WorkerId>, ExecutionError>)
        ensures
            ids is Ok <==> old(self)@.next_id + n <= u64::MAX,
            ids matches Ok(ids) ==> ids@ == Seq::new(
                n as nat,
                |i: int| WorkerId((old(self)@.next_id + i) as u64),
            ) && final(self)@ == (WorkerPoolView {
                next_id: (old(self)@.next_id + n) as u64,
                ..old(self)@
            }),
            ids matches Err(e) ==> !e@.0 && final(self)@ == (WorkerPoolView {
                next_id: u64::MAX,
                ..old(self)@
            }),
    {
        let mut ids: Vec<WorkerId> = Vec::new();
        for i in 0..n
            invariant
                self.options == old(self).options,
                self.spawn_retries_left == old(self).spawn_retries_left,
                self.spawn_retry_armed == old(self).spawn_retry_armed,
                self.worker_id_generator.upcoming() == old(self)@.next_id + i,
                ids@ == Seq::new(i as nat, |j: int| WorkerId((old(self)@.next_id + j) as u64)),
        {
            match self.worker_id_generator.next() {
                Some(id) => {
                    ids.push(id);
                    assert(ids@ =~= Seq::new(
                        (i + 1) as nat,
                        |j: int| WorkerId((old(self)@.next_id + j) as u64),
                    ));
                },
                None => {
                    return Err(
                        ExecutionError::InternalError("worker ids are exhausted".to_owned()),
                    );
                },
            }
        }
        Ok(ids)
    }

    /// Returns the delay to wait before re-spawning a replacement worker, or `None` when
    /// the spawn retry strategy has been exhausted.
    ///
    /// The armed flag is only ever set here, never cleared: when several workers fail close
    /// together, the first failure arms a retry (and schedules a delayed event) while the
    /// later ones may find the strategy exhausted and get `None`. Clearing the flag then
    /// would make pending tasks stop waiting even though a retry event is still in flight.
    /// The flag is cleared by [`WorkerPool::fire_spawn_retry`] when the retry event is
    /// processed, or by [`WorkerPool::reset_spawn_retry`] when a worker registers.
    pub fn next_spawn_retry_delay(&mut self) -> (delay: Option<Duration>)
        ensures
            delay == retry_answer(old(self)@),
            final(self)@ == retry_taken(old(self)@),
    {
        let RetryStrategy::Fixed { max_count, delay } = self.options.spawn_retry_strategy;
        let left: usize = match self.spawn_retries_left {
            Some(left) => left,
            None => max_count,
        };
        if left > 0 {
            self.spawn_retries_left = Some(left - 1);
            self.spawn_retry_armed = true;
            Some(delay)
        } else {
            self.spawn_retries_left = Some(0);
            None
        }
    }

    /// Marks the armed re-spawn retry as fired. Called when the delayed retry event is
    /// processed, right before scaling up the worker pool.
    pub fn fire_spawn_retry(&mut self)
        ensures
            final(self)@ == retry_fired(old(self)@),
    {
        self.spawn_retry_armed = false;
    }

    /// Returns true while a re-spawn retry is armed and has not fired yet. Pending tasks
    /// should keep waiting (rather than failing on the scheduling timeout) because a
    /// replacement worker may still register.
    pub fn has_pending_spawn_retry(&self) -> (armed: bool)
        ensures
            armed == self@.retry_armed,
    {
        self.spawn_retry_armed
    }

    /// Resets the spawn retry state. Called when a worker registers successfully, since the
    /// cluster can schedule workers again and the next failure should start a fresh retry
    /// cycle.
    pub fn reset_spawn_retry(&mut self)
        ensures
            final(self)@ == retry_reset(old(self)@),
    {
        self.spawn_retries_left = None;
        self.spawn_retry_armed = false;
    }
}

/// The pool after several failed workers ask for replacements.
pub open spec fn retries_taken(view: WorkerPoolView, failures: nat) -> WorkerPoolView
    decreases failures,
{
    if failures == 0 {
        view
    } else {
        retry_taken(retries_taken(view, (failures - 1) as nat))
    }
}

/// Asking for replacements never disarms a retry.
pub proof fn law_failures_keep_retry_armed(view: WorkerPoolView, failures: nat)
    requires
        view.retry_armed,
    ensures
        retries_taken(view, failures).retry_armed,
    decreases failures,
{
    if failures > 0 {
        law_failures_keep_retry_armed(view, (failures - 1) as nat);
    }
}

/// In one cycle a failed worker is spawned again at most as often as the strategy says, and
/// then no more; the cycle starts anew once a worker registers.
pub proof fn law_retries_are_bounded(view: WorkerPoolView, failures: nat)
    ensures
        retry_answer(retries_taken(retry_reset(view), failures)) == if failures < view.max_retries {
            Some(view.retry_delay)
        } else {
            None
        },
        retry_reset(view).remaining() == view.max_retries,
        !retry_reset(view).retry_armed,
{
    lemma_remaining(retry_reset(view), failures);
}

proof fn lemma_remaining(view: WorkerPoolView, failures: nat)
    ensures
        retries_taken(view, failures).remaining() == if failures <= view.remaining() {
            (view.remaining() - failures) as nat
        } else {
            0
        },
        retries_taken(view, failures).retry_delay == view.retry_delay,
        retries_taken(view, failures).max_retries == view.max_retries,
    decreases failures,
{
    if failures > 0 {
        lemma_remaining(view, (failures - 1) as nat);
    }
}

/// A fired or reset retry is no longer pending, and firing leaves the number of further
/// retries as it was.
pub proof fn law_fired_retry_is_not_pending(view: WorkerPoolView)
    ensures
        !retry_fired(view).retry_armed,
        retry_fired(view).remaining() == view.remaining(),
        retry_answer(view) is Some ==> retry_taken(view).retry_armed,
{
}

} // verus!

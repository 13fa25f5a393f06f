use vstd::prelude::*;
use vstd::std_specs::convert::FromSpecImpl;

verus! {

/// Identifies a job within a driver.
#[derive(Debug, Clone, Copy, PartialEq, Eq, Hash, Structural)]
pub struct JobId(pub u64);

/// Identifies a worker within a driver.
#[derive(Debug, Clone, Copy, PartialEq, Eq, Hash, Structural)]
pub struct WorkerId(pub u64);

/// Identifies a driver within a session.
#[derive(Debug, Clone, Copy, PartialEq, Eq, Hash, Structural)]
pub struct DriverId(pub u64);

impl From<u64> for JobId {
    fn from(value: u64) -> (id: JobId) {
        JobId(value)
    }
}

impl FromSpecImpl<u64> for JobId {
    open spec fn obeys_from_spec() -> bool {
        true
    }

    open spec fn from_spec(value: u64) -> JobId {
        JobId(value)
    }
}

impl From<u64> for WorkerId {
    fn from(value: u64) -> (id: WorkerId) {
        WorkerId(value)
    }
}

impl FromSpecImpl<u64> for WorkerId {
    open spec fn obeys_from_spec() -> bool {
        true
    }

    open spec fn from_spec(value: u64) -> WorkerId {
        WorkerId(value)
    }
}

impl From<u64> for DriverId {
    fn from(value: u64) -> (id: DriverId) {
        DriverId(value)
    }
}

impl FromSpecImpl<u64> for DriverId {
    open spec fn obeys_from_spec() -> bool {
        true
    }

    open spec fn from_spec(value: u64) -> DriverId {
        DriverId(value)
    }
}

/// One attempt at running one partition of a stage.
#[derive(Debug, Clone, Copy, PartialEq, Eq, Hash, Structural)]
pub struct TaskKey {
    pub job_id: JobId,
    pub stage: usize,
    pub partition: usize,
    pub attempt: usize,
}

/// One output channel of a task attempt.
#[derive(Debug, Clone, Copy, PartialEq, Eq, Hash, Structural)]
pub struct TaskStreamKey {
    pub job_id: JobId,
    pub stage: usize,
    pub partition: usize,
    pub attempt: usize,
    pub channel: usize,
}

/// Hands out worker ids, starting at one and never repeating.
#[derive(Debug)]
pub struct IdGenerator {
    next: u64,
}

impl IdGenerator {
    /// The id that the next call of [`IdGenerator::next`] hands out.
    pub closed spec fn upcoming(self) -> u64 {
        self.next
    }

    pub fn new() -> (generator: IdGenerator)
        ensures
            generator.upcoming() == 1,
    {
        IdGenerator { next: 1 }
    }

    /// The next id, or `None` once the ids are exhausted. The largest `u64` is never
    /// handed out.
    pub fn next(&mut self) -> (id: Option<WorkerId>)
        ensures
            old(self).upcoming() < u64::MAX ==> id == Some(WorkerId(old(self).upcoming()))
                && final(self).upcoming() == old(self).upcoming() + 1,
            old(self).upcoming() == u64::MAX ==> id is None && *final(self) == *old(self),
    {
        if self.next == u64::MAX {
            return None;
        }
        let id = WorkerId(self.next);
        self.next = self.next + 1;
        Some(id)
    }
}

} // verus!

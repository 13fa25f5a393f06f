//! Task definitions as they travel between the driver and the workers.

use vstd::prelude::*;

verus! {

#[derive(Debug)]
pub struct TaskDefinitionMessage {
    pub plan: Vec<u8>,
    pub inputs: Vec<TaskInputMessage>,
    pub output: Option<TaskOutputMessage>,
}

#[derive(Debug)]
pub struct TaskInputMessage {
    pub locator: Option<TaskInputLocatorMessage>,
}

#[derive(Debug)]
pub struct TaskInputLocatorMessage {
    pub kind: Option<TaskInputLocatorKind>,
}

#[derive(Debug)]
#[allow(inconsistent_fields)]
pub enum TaskInputLocatorKind {
    Driver { stage: u64, keys: Vec<TaskInputDriverKeyList> },
    Worker { stage: u64, keys: Vec<TaskInputWorkerKeyList> },
    Remote { uri: String, stage: u64, keys: Vec<TaskInputRemoteKeyList> },
}

#[derive(Debug)]
pub struct TaskInputDriverKeyList {
    pub keys: Vec<TaskInputDriverKey>,
}

#[derive(Debug)]
pub struct TaskInputWorkerKeyList {
    pub keys: Vec<TaskInputWorkerKey>,
}

#[derive(Debug)]
pub struct TaskInputRemoteKeyList {
    pub keys: Vec<TaskInputRemoteKey>,
}

#[derive(Debug, Clone, Copy, PartialEq, Eq, Structural)]
pub struct TaskInputDriverKey {
    pub partition: u64,
    pub attempt: u64,
    pub channel: u64,
}

#[derive(Debug, Clone, Copy, PartialEq, Eq, Structural)]
pub struct TaskInputWorkerKey {
    pub worker_id: u64,
    pub partition: u64,
    pub attempt: u64,
    pub channel: u64,
}

#[derive(Debug, Clone, Copy, PartialEq, Eq, Structural)]
pub struct TaskInputRemoteKey {
    pub partition: u64,
    pub attempt: u64,
    pub channel: u64,
}

#[derive(Debug)]
pub struct TaskOutputMessage {
    pub distribution: Option<TaskOutputDistributionMessage>,
    pub locator: Option<TaskOutputLocatorMessage>,
}

#[derive(Debug)]
pub struct TaskOutputDistributionMessage {
    pub kind: Option<TaskOutputDistributionKind>,
}

#[derive(Debug)]
pub enum TaskOutputDistributionKind {
    Hash { keys: Vec<Vec<u8>>, channels: u64 },
    RoundRobin { channels: u64 },
    RoundRobinRow { channels: u64 },
}

#[derive(Debug)]
pub struct TaskOutputLocatorMessage {
    pub kind: Option<TaskOutputLocatorKind>,
}

#[derive(Debug)]
pub enum TaskOutputLocatorKind {
    Local { replicas: u64 },
    Remote { uri: String },
}

} // verus!

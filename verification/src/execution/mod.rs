//! Driver-side scheduling: worker budgets, task slots, task definitions and retries.

pub mod codec;
pub mod definition;
pub mod error;
pub mod id;
pub mod message;
pub mod monitor;
pub mod rpc;
pub mod scheduling;
pub mod slot_assigner;
pub mod state;
pub mod stream_set;
pub mod task_assigner;
pub mod task_assigner_laws;
pub mod worker_map;
pub mod worker_pool;

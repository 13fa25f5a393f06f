use vstd::prelude::*;

verus! {

/// What can go wrong in scheduling and execution.
#[derive(Debug, PartialEq, Eq)]
pub enum ExecutionError {
    InvalidArgument(String),
    InternalError(String),
}

impl View for ExecutionError {
    type V = (bool, Seq<char>);

    /// Whether the error is one of the caller's, and its message.
    open spec fn view(&self) -> (bool, Seq<char>) {
        match self {
            ExecutionError::InvalidArgument(message) => (true, message@),
            ExecutionError::InternalError(message) => (false, message@),
        }
    }
}

} // verus!

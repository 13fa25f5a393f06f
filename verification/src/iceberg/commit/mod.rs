//! Committing what the writers of a table produced.

pub mod helper;
pub mod machine;
pub mod meta;
pub mod parents;
pub mod production;
pub mod update;

//! Scheduling of distributed query execution, transactional lakehouse tables and the
//! session catalog around them.

pub mod affix;
pub mod assoc;
pub mod bytes;
pub mod catalog;
pub mod cli;
pub mod data_source;
pub mod execution;
pub mod iceberg;
pub mod json;
pub mod location;
pub mod number;
pub mod ordered;
pub mod retry;
pub mod shown;
pub mod string_map;
pub mod text;

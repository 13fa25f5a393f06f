//! Reading files.

pub mod range;

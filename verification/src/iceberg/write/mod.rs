//! Writing data files.

pub mod alignment;
pub mod data_file_writer;
pub mod partition_writer;
pub mod settings;
pub mod table_writer;
pub mod upload;

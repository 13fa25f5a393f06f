//! Transactional tables: metadata, commits, row-level rewrites, procedures and loads.

pub mod ancestry;
pub mod call_procedure;
pub mod columns;
pub mod commit;
pub mod compaction;
pub mod conflict_checker;
pub mod contents;
pub mod data_files;
pub mod expire_gc;
pub mod expiry;
pub mod identifiers;
pub mod load;
pub mod manifest;
pub mod metadata_files;
pub mod metadata_table;
pub mod overwrite;
pub mod procedure;
pub mod procedure_laws;
pub mod requirements;
pub mod rewrite;
pub mod row_level;
pub mod scan;
pub mod table;
pub mod table_source;
pub mod write;

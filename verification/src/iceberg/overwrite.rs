//! Overwriting a table, or part of it.

use vstd::prelude::*;

use crate::iceberg::commit::parents::ParentManifests;
use crate::iceberg::manifest::{ManifestContentType, ManifestFile};
use crate::iceberg::table::{DataFile, FormatVersion, Operation, PartitionSpec, Schema};

verus! {

use crate::iceberg::commit::parents::CarriedManifests;

/// Where the files of a table are.
#[derive(Debug)]
pub struct StoreContext {
    pub table_url: String,
}

/// What a manifest says of the files that it lists.
#[derive(Debug)]
pub struct ManifestMetadata {
    pub schema: Schema,
    pub schema_id: i32,
    pub partition_spec: PartitionSpec,
    pub format_version: FormatVersion,
    pub content: ManifestContentType,
}

/// What a new snapshot is made of.
#[derive(Debug)]
pub struct SnapshotProduction {
    pub operation: Operation,
    pub added_data_files: Vec<DataFile>,
    pub store_ctx: Option<StoreContext>,
    pub manifest_metadata: Option<ManifestMetadata>,
    pub row_lineage_start_row_id: Option<i64>,
    pub parents: ParentManifests,
}

#[derive(Debug)]
pub struct OverwriteAction {
    pub added_data_files: Vec<DataFile>,
    pub store_ctx: Option<StoreContext>,
    pub manifest_metadata: Option<ManifestMetadata>,
    pub row_lineage_start_row_id: Option<i64>,
    /// Pre-filtered parent manifest entries for predicate/partition overwrite.
    /// When set, only these entries are carried forward; others are replaced.
    /// When None, ALL parent entries are replaced (full table overwrite).
    pub parent_manifest_entries: Option<Vec<ManifestFile>>,
}

impl Default for OverwriteAction {
    fn default() -> (action: OverwriteAction)
        ensures
            action.is_blank(),
    {
        OverwriteAction::new()
    }
}

impl OverwriteAction {
    /// Whether nothing was said yet of what to write.
    pub open spec fn is_blank(self) -> bool {
        &&& self.added_data_files@.len() == 0
        &&& self.store_ctx is None
        &&& self.manifest_metadata is None
        &&& self.row_lineage_start_row_id is None
        &&& self.parent_manifest_entries is None
    }

    pub fn new() -> (action: OverwriteAction)
        ensures
            action.is_blank(),
    {
        OverwriteAction {
            added_data_files: Vec::new(),
            store_ctx: None,
            manifest_metadata: None,
            row_lineage_start_row_id: None,
            parent_manifest_entries: None,
        }
    }

    pub fn add_file(&mut self, file: DataFile)
        ensures
            final(self).added_data_files@ == old(self).added_data_files@.push(file),
            *final(self) == (OverwriteAction {
                added_data_files: final(self).added_data_files,
                ..*old(self)
            }),
    {
        self.added_data_files.push(file);
    }

    pub fn with_store_context(self, store_ctx: StoreContext) -> (action: OverwriteAction)
        ensures
            action == (OverwriteAction { store_ctx: Some(store_ctx), ..self }),
    {
        OverwriteAction { store_ctx: Some(store_ctx), ..self }
    }

    pub fn with_manifest_metadata(self, metadata: ManifestMetadata) -> (action: OverwriteAction)
        ensures
            action == (OverwriteAction { manifest_metadata: Some(metadata), ..self }),
    {
        OverwriteAction { manifest_metadata: Some(metadata), ..self }
    }

    pub fn with_row_lineage_start_row_id(self, start_row_id: Option<i64>) -> (action:
        OverwriteAction)
        ensures
            action == (OverwriteAction { row_lineage_start_row_id: start_row_id, ..self }),
    {
        OverwriteAction { row_lineage_start_row_id: start_row_id, ..self }
    }

    pub fn with_parent_manifest_entries(self, entries: Option<Vec<ManifestFile>>) -> (action:
        OverwriteAction)
        ensures
            action == (OverwriteAction { parent_manifest_entries: entries, ..self }),
    {
        OverwriteAction { parent_manifest_entries: entries, ..self }
    }

    /// What the snapshot of the overwrite is made of. Where no parent manifests are given, none
    /// is carried forward.
    pub fn production(self) -> (production: SnapshotProduction)
        ensures
            production.operation is Overwrite,
            production.added_data_files == self.added_data_files,
            production.store_ctx == self.store_ctx,
            production.manifest_metadata == self.manifest_metadata,
            production.row_lineage_start_row_id == self.row_lineage_start_row_id,
            production.parents@ == (CarriedManifests::Only {
                entries: match self.parent_manifest_entries {
                    Some(given) => given@,
                    None => Seq::empty(),
                },
            }),
    {
        let entries = match self.parent_manifest_entries {
            Some(entries) => entries,
            None => Vec::new(),
        };
        SnapshotProduction {
            operation: Operation::Overwrite,
            added_data_files: self.added_data_files,
            store_ctx: self.store_ctx,
            manifest_metadata: self.manifest_metadata,
            row_lineage_start_row_id: self.row_lineage_start_row_id,
            parents: ParentManifests::Only { entries },
        }
    }
}

} // verus!

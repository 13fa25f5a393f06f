//! What the snapshot of a commit is made of, and what a catalog is handed of it.

use vstd::prelude::*;

use crate::iceberg::commit::meta::IcebergCommitExec;
use crate::iceberg::commit::parents::{parent_filter, parent_manifests, FilterError, ParentListing};
use crate::iceberg::overwrite::{ManifestMetadata, SnapshotProduction, StoreContext};
use crate::iceberg::requirements::RequirementError;
use crate::iceberg::table::{
    DataFile, Operation, PartitionSpec, TableMetadata, TableRequirement, TableUpdate,
};

verus! {

use crate::iceberg::commit::parents::{
    carried_manifests, parent_choice, CarriedManifests, FilterFault,
};
use crate::iceberg::commit::update::start_row_id;
use crate::iceberg::contents::{optional_text, texts};
use crate::iceberg::requirements::first_fault;
use crate::iceberg::table::PartitionField;

/// What a commit says of the part of the table that it overwrites.
#[derive(Debug)]
pub struct OverwriteScope {
    /// The partition column equality pairs of a predicate overwrite, as JSON.
    pub overwrite_predicate: Option<String>,
    /// The partition values rewritten by a dynamic overwrite, as JSON.
    pub overwrite_partition_values: Option<String>,
    /// The files rewritten by a row-level operation.
    pub touched_file_paths: Vec<String>,
}

/// The manifests of the parent that the snapshot of a commit carries forward.
pub open spec fn commit_parents(
    operation: Operation,
    scope: OverwriteScope,
    fields: Seq<PartitionField>,
    listing: ParentListing,
) -> Result<CarriedManifests, FilterFault> {
    match parent_choice(
        operation,
        optional_text(scope.overwrite_predicate),
        optional_text(scope.overwrite_partition_values),
        texts(scope.touched_file_paths@),
        fields,
    ) {
        Ok(choice) => carried_manifests(choice, listing),
        Err(fault) => Err(fault),
    }
}

impl IcebergCommitExec {
    /// What the snapshot of a commit is made of: the files that were written, the manifests of
    /// the parent that the operation keeps, and the ids of its rows.
    pub fn produce_snapshot(
        operation: Operation,
        data_files: Vec<DataFile>,
        scope: OverwriteScope,
        table_meta: &TableMetadata,
        partition_spec: &PartitionSpec,
        listing: ParentListing,
        store_ctx: StoreContext,
        manifest_metadata: ManifestMetadata,
    ) -> (production: Result<SnapshotProduction, FilterError>)
        ensures
            match commit_parents(operation, scope, partition_spec.fields@, listing) {
                Ok(parents) => production matches Ok(p) && p.operation == operation
                    && p.added_data_files == data_files && p.parents@ == parents
                    && p.row_lineage_start_row_id == start_row_id(*table_meta) && p.store_ctx
                    == Some(store_ctx) && p.manifest_metadata == Some(manifest_metadata),
                Err(fault) => production matches Err(e) && e@ == fault,
            },
    {
        let filter = match parent_filter(
            operation,
            &scope.overwrite_predicate,
            &scope.overwrite_partition_values,
            scope.touched_file_paths,
            partition_spec,
        ) {
            Ok(filter) => filter,
            Err(e) => {
                return Err(e);
            },
        };
        match parent_manifests(filter, listing) {
            Ok(parents) => Ok(
                SnapshotProduction {
                    operation,
                    added_data_files: data_files,
                    store_ctx: Some(store_ctx),
                    manifest_metadata: Some(manifest_metadata),
                    row_lineage_start_row_id: table_meta.row_lineage_start_row_id(),
                    parents,
                },
            ),
            Err(e) => Err(e),
        }
    }
}

/// What came of producing a snapshot: the changes that it brings to the metadata, and what must
/// hold of the table for that.
#[derive(Debug)]
pub struct ActionCommit {
    pub updates: Vec<TableUpdate>,
    pub requirements: Vec<TableRequirement>,
}

impl IcebergCommitExec {
    /// Checks what a new snapshot requires of the table, against the metadata that the commit
    /// has prepared. The changes that the snapshot brings go on.
    pub fn check_action(table_meta: &TableMetadata, action: ActionCommit) -> (updates: Result<
        Vec<TableUpdate>,
        RequirementError,
    >)
        ensures
            match first_fault(Some(table_meta), action.requirements@) {
                Some(fault) => updates matches Err(e) && e@ == fault,
                None => updates == Ok::<_, RequirementError>(action.updates),
            },
    {
        match IcebergCommitExec::validate_requirements(Some(table_meta), &action.requirements) {
            Ok(()) => Ok(action.updates),
            Err(e) => Err(e),
        }
    }

    /// The changes that a catalog is asked to make: those of the schema, the partition spec and
    /// the format version, followed by those of the new snapshot.
    pub fn catalog_updates(
        metadata_updates: Vec<TableUpdate>,
        action_updates: Vec<TableUpdate>,
    ) -> (updates: Vec<TableUpdate>)
        ensures
            updates@ == metadata_updates@ + action_updates@,
    {
        let mut updates = metadata_updates;
        let mut rest = action_updates;
        updates.append(&mut rest);
        updates
    }
}

/// The snapshot of a commit adds the files that were written, under the operation that was asked
/// for, and carries the manifests that the operation keeps. Where it is not known what is kept,
/// there is no snapshot.
pub proof fn law_snapshots_hold_what_was_written(
    operation: Operation,
    data_files: Vec<DataFile>,
    scope: OverwriteScope,
    table_meta: TableMetadata,
    partition_spec: PartitionSpec,
    listing: ParentListing,
    store_ctx: StoreContext,
    manifest_metadata: ManifestMetadata,
    production: Result<SnapshotProduction, FilterError>,
)
    requires
        call_ensures(
            IcebergCommitExec::produce_snapshot,
            (
                operation,
                data_files,
                scope,
                &table_meta,
                &partition_spec,
                listing,
                store_ctx,
                manifest_metadata,
            ),
            production,
        ),
    ensures
        production matches Ok(p) ==> {
            &&& p.operation == operation
            &&& p.added_data_files == data_files
            &&& p.store_ctx == Some(store_ctx)
            &&& p.manifest_metadata == Some(manifest_metadata)
            &&& p.row_lineage_start_row_id == start_row_id(table_meta)
            &&& parent_choice(
                operation,
                optional_text(scope.overwrite_predicate),
                optional_text(scope.overwrite_partition_values),
                texts(scope.touched_file_paths@),
                partition_spec.fields@,
            ) matches Ok(choice) && carried_manifests(choice, listing) == Ok::<_, FilterFault>(
                p.parents@,
            )
        },
        parent_choice(
            operation,
            optional_text(scope.overwrite_predicate),
            optional_text(scope.overwrite_partition_values),
            texts(scope.touched_file_paths@),
            partition_spec.fields@,
        ) is Err ==> production is Err,
{
}

/// The updates of a snapshot are made exactly where its requirements hold, and unchanged.
pub proof fn law_required_snapshots_are_updated(
    table_meta: TableMetadata,
    action: ActionCommit,
    updates: Result<Vec<TableUpdate>, RequirementError>,
)
    requires
        call_ensures(IcebergCommitExec::check_action, (&table_meta, action), updates),
    ensures
        updates is Ok <==> first_fault(Some(&table_meta), action.requirements@) is None,
        updates matches Ok(u) ==> u == action.updates,
{
}

} // verus!

//! What a commit does to the metadata of a table.

use vstd::prelude::*;

use crate::iceberg::commit::meta::IcebergCommitExec;
use crate::iceberg::requirements::{validate_requirements, RequirementError};
use crate::iceberg::table::{
    find_schema, find_spec, FormatVersion, MetadataLog, PartitionField, PartitionSpec, Schema,
    SchemaField, Snapshot, SnapshotLog, SnapshotReference, TableMetadata, TableRequirement,
    TableUpdate, UnboundPartitionField, UnboundPartitionSpec,
};

verus! {

use crate::assoc::{distinct_keys, lemma_stored, stored, value_of};
use crate::iceberg::contents::{PartitionFieldView, PartitionSpecView, SchemaView};
use crate::iceberg::requirements::first_fault;
use crate::iceberg::table::{
    later_version, law_schema_positions, law_spec_positions, schema_position, spec_position,
};

/// The schemas after one is added, in the place of the one with the same id or last.
pub open spec fn with_schema(schemas: Seq<Schema>, schema: Schema) -> Seq<Schema> {
    match schema_position(schemas, schema.schema_id) {
        Some(i) => schemas.update(i, schema),
        None => schemas.push(schema),
    }
}

/// The partition specs after one is added, in the place of the one with the same id or
/// last.
pub open spec fn with_spec(specs: Seq<PartitionSpec>, spec: PartitionSpec) -> Seq<PartitionSpec> {
    match spec_position(specs, spec.spec_id) {
        Some(i) => specs.update(i, spec),
        None => specs.push(spec),
    }
}

/// The highest field id of a partition spec, where it has fields.
pub open spec fn highest_field_id(fields: Seq<PartitionField>) -> Option<i32>
    decreases fields.len(),
{
    if fields.len() == 0 {
        None
    } else {
        match highest_field_id(fields.drop_last()) {
            Some(highest) if highest >= fields.last().field_id => Some(highest),
            _ => Some(fields.last().field_id),
        }
    }
}

/// The greater of two ids.
pub open spec fn greater_id(a: i32, b: i32) -> i32 {
    if b > a {
        b
    } else {
        a
    }
}

impl PartitionSpec {
    /// The spec of a table without partitions.
    pub fn unpartitioned_spec() -> (spec: PartitionSpec)
        ensures
            spec@ == unpartitioned(),
    {
        let spec = PartitionSpec { spec_id: 0, fields: Vec::new() };
        assert(spec@.fields =~= Seq::<PartitionFieldView>::empty());
        spec
    }

    /// The highest field id, where the spec has fields.
    pub fn highest_field_id(&self) -> (highest: Option<i32>)
        ensures
            highest == highest_field_id(self.fields@),
    {
        let mut highest: Option<i32> = None;
        for i in 0..self.fields.len()
            invariant
                highest == highest_field_id(self.fields@.take(i as int)),
        {
            assert(self.fields@.take(i + 1).drop_last() =~= self.fields@.take(i as int));
            let id: i32 = self.fields[i].field_id;
            highest = match highest {
                Some(h) => if h >= id {
                    Some(h)
                } else {
                    Some(id)
                },
                None => Some(id),
            };
        }
        assert(self.fields@.take(self.fields@.len() as int) =~= self.fields@);
        highest
    }

    /// A copy of the spec.
    pub fn duplicate(&self) -> (copy: PartitionSpec)
        ensures
            copy@ == self@,
    {
        let mut fields: Vec<PartitionField> = Vec::new();
        for i in 0..self.fields.len()
            invariant
                fields@.len() == i,
                forall|j: int| 0 <= j < i ==> (#[trigger] fields@[j])@ == self.fields@[j]@,
        {
            let field = &self.fields[i];
            fields.push(
                PartitionField {
                    source_id: field.source_id,
                    field_id: field.field_id,
                    name: field.name.clone(),
                    transform: field.transform.clone(),
                },
            );
        }
        let copy = PartitionSpec { spec_id: self.spec_id, fields };
        assert(copy@.fields =~= self@.fields);
        copy
    }

    /// The same spec under another id.
    pub fn with_spec_id(self, spec_id: i32) -> (spec: PartitionSpec)
        ensures
            spec == (PartitionSpec { spec_id, ..self }),
    {
        PartitionSpec { spec_id, fields: self.fields }
    }
}

/// The spec of a table without partitions, by its contents.
pub open spec fn unpartitioned() -> PartitionSpecView {
    PartitionSpecView { spec_id: 0, fields: Seq::empty() }
}

impl Schema {
    /// A copy of the schema.
    pub fn duplicate(&self) -> (copy: Schema)
        ensures
            copy@ == self@,
    {
        let mut fields: Vec<SchemaField> = Vec::new();
        for i in 0..self.fields.len()
            invariant
                fields@.len() == i,
                forall|j: int| 0 <= j < i ==> (#[trigger] fields@[j])@ == self.fields@[j]@,
        {
            let field = &self.fields[i];
            fields.push(
                SchemaField {
                    id: field.id,
                    name: field.name.clone(),
                    field_type: field.field_type.clone(),
                    required: field.required,
                },
            );
        }
        let copy = Schema {
            schema_id: self.schema_id,
            fields,
            highest_field_id: self.highest_field_id,
            min_format_version: self.min_format_version,
        };
        assert(copy@.fields =~= self@.fields);
        copy
    }
}

/// A field of a partition spec without an id of its own, by its contents.
pub struct UnboundFieldView {
    pub source_id: i32,
    pub name: Seq<char>,
    pub transform: Seq<char>,
}

/// A change of the metadata that a commit makes beside its snapshot, by its contents.
pub enum MetadataChange {
    UpgradeFormatVersion { format_version: FormatVersion },
    AddSchema { schema: SchemaView },
    SetCurrentSchema { schema_id: i32 },
    AddSpec { fields: Seq<UnboundFieldView> },
    SetDefaultSpec { spec_id: i32 },
    /// A change that concerns snapshots.
    Other,
}

/// The fields of a spec without their ids.
pub open spec fn unbound_fields(fields: Seq<PartitionFieldView>) -> Seq<UnboundFieldView> {
    fields.map_values(
        |field: PartitionFieldView|
            UnboundFieldView {
                source_id: field.source_id,
                name: field.name,
                transform: field.transform,
            },
    )
}

/// A spec without ids of its own, by its contents.
pub open spec fn unbound_view(fields: Seq<UnboundPartitionField>) -> Seq<UnboundFieldView> {
    fields.map_values(
        |field: UnboundPartitionField|
            UnboundFieldView {
                source_id: field.source_id,
                name: field.name@,
                transform: field.transform@,
            },
    )
}

/// A change of the metadata, by its contents.
pub open spec fn change_view(update: TableUpdate) -> MetadataChange {
    match update {
        TableUpdate::UpgradeFormatVersion { format_version } => {
            MetadataChange::UpgradeFormatVersion { format_version }
        },
        TableUpdate::AddSchema { schema } => MetadataChange::AddSchema { schema: schema@ },
        TableUpdate::SetCurrentSchema { schema_id } => {
            MetadataChange::SetCurrentSchema { schema_id }
        },
        TableUpdate::AddSpec { spec } => MetadataChange::AddSpec {
            fields: unbound_view(spec.fields@),
        },
        TableUpdate::SetDefaultSpec { spec_id } => MetadataChange::SetDefaultSpec { spec_id },
        _ => MetadataChange::Other,
    }
}

/// Changes of the metadata, by their contents.
pub open spec fn change_views(updates: Seq<TableUpdate>) -> Seq<MetadataChange> {
    updates.map_values(|update: TableUpdate| change_view(update))
}

/// The schema of the table is not among its schemas.
#[derive(Debug, Clone, Copy, PartialEq, Eq, Structural)]
pub struct NoCurrentSchema;

impl NoCurrentSchema {
    /// The message of the error.
    pub fn message(&self) -> (text: String)
        ensures
            text@ == "No current schema in table metadata"@,
    {
        "No current schema in table metadata".to_owned()
    }
}

/// What a commit needs beside the changed metadata.
#[derive(Debug)]
pub struct PreparedCommit {
    /// The changes that were made, for a catalog to make too.
    pub metadata_updates: Vec<TableUpdate>,
    /// The partition spec that the new files are written under.
    pub partition_spec: PartitionSpec,
}

/// The changes that a new schema brings: its addition where its id is new, and its choice
/// where it is not the current one.
pub open spec fn schema_changes(metadata: TableMetadata, schema: Option<Schema>) -> Seq<
    MetadataChange,
> {
    match schema {
        None => Seq::empty(),
        Some(schema) => (if schema_position(metadata.schemas@, schema.schema_id) is None {
            seq![MetadataChange::AddSchema { schema: schema@ }]
        } else {
            Seq::empty()
        }) + (if metadata.current_schema_id != schema.schema_id {
            seq![MetadataChange::SetCurrentSchema { schema_id: schema.schema_id }]
        } else {
            Seq::empty()
        }),
    }
}

/// The id that a new partition spec gets: that of the default spec where it comes without
/// one.
pub open spec fn assigned_spec_id(default_spec_id: i32, spec_id: i32) -> i32 {
    if spec_id == 0 && default_spec_id != 0 {
        default_spec_id
    } else {
        spec_id
    }
}

/// The changes that a new partition spec brings.
pub open spec fn spec_changes(metadata: TableMetadata, spec: Option<PartitionSpec>) -> Seq<
    MetadataChange,
> {
    match spec {
        None => Seq::empty(),
        Some(spec) => {
            let id = assigned_spec_id(metadata.default_spec_id, spec.spec_id);
            (if spec_position(metadata.partition_specs@, id) is None {
                seq![MetadataChange::AddSpec { fields: unbound_fields(spec@.fields) }]
            } else {
                Seq::empty()
            }) + (if metadata.default_spec_id != id {
                seq![MetadataChange::SetDefaultSpec { spec_id: id }]
            } else {
                Seq::empty()
            })
        },
    }
}

/// The partition spec that the new files are written under: the new one under its id, or
/// the default of the table, or none.
pub open spec fn commit_spec(metadata: TableMetadata, spec: Option<PartitionSpec>) -> PartitionSpecView {
    match spec {
        Some(spec) => PartitionSpecView {
            spec_id: assigned_spec_id(metadata.default_spec_id, spec.spec_id),
            fields: spec@.fields,
        },
        None => match spec_position(metadata.partition_specs@, metadata.default_spec_id) {
            Some(i) => metadata.partition_specs@[i]@,
            None => unpartitioned(),
        },
    }
}

/// The later of the format version of the metadata and that which a new schema needs.
pub open spec fn schema_version(metadata: TableMetadata, schema: Option<Schema>) -> FormatVersion {
    match schema {
        Some(schema) => later_version(metadata.format_version, schema.min_format_version),
        None => metadata.format_version,
    }
}

impl IcebergCommitExec {
    /// Checks the requirements of a commit against the metadata of the table.
    pub fn validate_requirements(
        table_meta: Option<&TableMetadata>,
        requirements: &Vec<TableRequirement>,
    ) -> (result: Result<(), RequirementError>)
        ensures
            match result {
                Ok(()) => first_fault(table_meta, requirements@) is None,
                Err(e) => first_fault(table_meta, requirements@) == Some(e@),
            },
    {
        validate_requirements(table_meta, requirements)
    }

    /// Makes a schema the current one: it takes the place of the schema with its id, or
    /// comes last.
    pub fn apply_schema_update(table_meta: &mut TableMetadata, new_schema: Schema)
        ensures
            final(table_meta).schemas@ == with_schema(old(table_meta).schemas@, new_schema),
            *final(table_meta) == (TableMetadata {
                schemas: final(table_meta).schemas,
                current_schema_id: new_schema.schema_id,
                last_column_id: greater_id(
                    old(table_meta).last_column_id,
                    new_schema.highest_field_id,
                ),
                format_version: later_version(
                    old(table_meta).format_version,
                    new_schema.min_format_version,
                ),
                ..*old(table_meta)
            }),
    {
        let schema_id: i32 = new_schema.schema_id;
        let highest: i32 = new_schema.highest_field_id;
        table_meta.current_schema_id = schema_id;
        if highest > table_meta.last_column_id {
            table_meta.last_column_id = highest;
        }
        table_meta.format_version = table_meta.format_version.later(new_schema.min_format_version);
        match find_schema(&table_meta.schemas, schema_id) {
            Some(i) => {
                table_meta.schemas.set(i, new_schema);
            },
            None => {
                table_meta.schemas.push(new_schema);
            },
        }
    }

    /// Makes a partition spec the default: it takes the place of the spec with its id, or
    /// comes last.
    pub fn apply_partition_spec_update(table_meta: &mut TableMetadata, new_spec: PartitionSpec)
        ensures
            final(table_meta).partition_specs@ == with_spec(
                old(table_meta).partition_specs@,
                new_spec,
            ),
            *final(table_meta) == (TableMetadata {
                partition_specs: final(table_meta).partition_specs,
                default_spec_id: new_spec.spec_id,
                last_partition_id: match highest_field_id(new_spec.fields@) {
                    Some(highest) => greater_id(old(table_meta).last_partition_id, highest),
                    None => old(table_meta).last_partition_id,
                },
                ..*old(table_meta)
            }),
    {
        let spec_id: i32 = new_spec.spec_id;
        table_meta.default_spec_id = spec_id;
        match new_spec.highest_field_id() {
            Some(highest) => {
                if highest > table_meta.last_partition_id {
                    table_meta.last_partition_id = highest;
                }
            },
            None => {},
        }
        match find_spec(&table_meta.partition_specs, spec_id) {
            Some(i) => {
                table_meta.partition_specs.set(i, new_spec);
            },
            None => {
                table_meta.partition_specs.push(new_spec);
            },
        }
    }

    /// A partition spec without the ids of its fields.
    pub fn unbound_partition_spec(spec: &PartitionSpec) -> (unbound: UnboundPartitionSpec)
        ensures
            unbound_view(unbound.fields@) == unbound_fields(spec@.fields),
    {
        let mut fields: Vec<UnboundPartitionField> = Vec::new();
        for i in 0..spec.fields.len()
            invariant
                unbound_view(fields@) == unbound_fields(spec@.fields).take(i as int),
        {
            let field = &spec.fields[i];
            let ghost before = unbound_view(fields@);
            fields.push(
                UnboundPartitionField {
                    source_id: field.source_id,
                    name: field.name.clone(),
                    transform: field.transform.clone(),
                },
            );
            let ghost all = unbound_fields(spec@.fields);
            assert(spec@.fields[i as int] == spec.fields@[i as int]@);
            assert(unbound_view(fields@) =~= before.push(all[i as int]));
            assert(all.take(i + 1) =~= all.take(i as int).push(all[i as int]));
        }
        assert(unbound_view(fields@) =~= unbound_fields(spec@.fields));
        UnboundPartitionSpec { fields }
    }

    /// Brings a new schema and a new partition spec into the metadata, and raises the format
    /// version to what the current schema needs. Fails where the current schema is missing.
    pub fn prepare_metadata(
        table_meta: &mut TableMetadata,
        schema: Option<Schema>,
        spec: Option<PartitionSpec>,
    ) -> (result: Result<PreparedCommit, NoCurrentSchema>)
        ensures
            ({
                let before = *old(table_meta);
                let after = *final(table_meta);
                let version = schema_version(before, schema);
                let position = schema_position(after.schemas@, after.current_schema_id);
                &&& result is Ok <==> position is Some
                &&& schema is None ==> after.schemas@ == before.schemas@ && after.current_schema_id
                    == before.current_schema_id && after.last_column_id == before.last_column_id
                &&& schema matches Some(s) ==> (exists|added: Schema|
                    added@ == s@ && #[trigger] with_schema(before.schemas@, added)
                        == after.schemas@) && after.current_schema_id == s.schema_id
                    && after.last_column_id == greater_id(
                    before.last_column_id,
                    s.highest_field_id,
                )
                &&& spec is None ==> after.partition_specs@ == before.partition_specs@
                    && after.last_partition_id == before.last_partition_id
                &&& spec matches Some(s) ==> (exists|added: PartitionSpec|
                    added@ == commit_spec(before, spec) && #[trigger] with_spec(
                        before.partition_specs@,
                        added,
                    ) == after.partition_specs@ && after.last_partition_id == (
                    match highest_field_id(added.fields@) {
                        Some(highest) => greater_id(before.last_partition_id, highest),
                        None => before.last_partition_id,
                    }))
                &&& result matches Ok(prepared) ==> {
                    let needed = after.schemas@[position->0].min_format_version;
                    &&& after.format_version == later_version(version, needed)
                    &&& change_views(prepared.metadata_updates@) == (if later_version(
                        version,
                        needed,
                    ).number() > before.format_version.number() {
                        seq![
                            MetadataChange::UpgradeFormatVersion {
                                format_version: later_version(version, needed),
                            },
                        ]
                    } else {
                        Seq::empty()
                    }) + schema_changes(before, schema) + spec_changes(before, spec)
                    &&& prepared.partition_spec@ == commit_spec(before, spec)
                }
                &&& result is Err ==> after.format_version == version
                &&& after == (TableMetadata {
                    schemas: after.schemas,
                    current_schema_id: after.current_schema_id,
                    last_column_id: after.last_column_id,
                    format_version: after.format_version,
                    partition_specs: after.partition_specs,
                    default_spec_id: commit_default_spec_id(before, spec),
                    last_partition_id: after.last_partition_id,
                    ..before
                })
            }),
    {
        let ghost before = *table_meta;
        let original_version = table_meta.format_version;
        let mut updates: Vec<TableUpdate> = Vec::new();
        assert(change_views(updates@) =~= Seq::<MetadataChange>::empty());
        match schema {
            Some(new_schema) => {
                let schema_id: i32 = new_schema.schema_id;
                let add = find_schema(&table_meta.schemas, schema_id).is_none();
                let choose_it = table_meta.current_schema_id != schema_id;
                let added = new_schema.duplicate();
                IcebergCommitExec::apply_schema_update(table_meta, added);
                if add {
                    updates.push(TableUpdate::AddSchema { schema: new_schema });
                }
                if choose_it {
                    updates.push(TableUpdate::SetCurrentSchema { schema_id });
                }
            },
            None => {},
        }
        assert(change_views(updates@) =~= schema_changes(before, schema));
        let ghost after_schema = *table_meta;
        let partition_spec = match spec {
            Some(new_spec) => {
                let new_spec = if new_spec.spec_id == 0 && table_meta.default_spec_id != 0 {
                    let id: i32 = table_meta.default_spec_id;
                    new_spec.with_spec_id(id)
                } else {
                    new_spec
                };
                let spec_id: i32 = new_spec.spec_id;
                let add = find_spec(&table_meta.partition_specs, spec_id).is_none();
                let choose_it = table_meta.default_spec_id != spec_id;
                let added = new_spec.duplicate();
                IcebergCommitExec::apply_partition_spec_update(table_meta, added);
                if add {
                    updates.push(
                        TableUpdate::AddSpec {
                            spec: IcebergCommitExec::unbound_partition_spec(&new_spec),
                        },
                    );
                }
                if choose_it {
                    updates.push(TableUpdate::SetDefaultSpec { spec_id });
                }
                new_spec
            },
            None => match table_meta.default_spec_index() {
                Some(i) => table_meta.partition_specs[i].duplicate(),
                None => PartitionSpec::unpartitioned_spec(),
            },
        };
        assert(change_views(updates@) =~= schema_changes(before, schema) + spec_changes(
            before,
            spec,
        ));
        let at = match table_meta.current_schema_index() {
            Some(i) => i,
            None => {
                return Err(NoCurrentSchema);
            },
        };
        let needed = table_meta.schemas[at].min_format_version;
        table_meta.format_version = table_meta.format_version.later(needed);
        if table_meta.format_version.is_after(original_version) {
            let ghost rest = change_views(updates@);
            updates.insert(
                0,
                TableUpdate::UpgradeFormatVersion { format_version: table_meta.format_version },
            );
            assert(change_views(updates@) =~= seq![
                MetadataChange::UpgradeFormatVersion {
                    format_version: table_meta.format_version,
                },
            ] + rest);
        }
        let prepared = PreparedCommit { metadata_updates: updates, partition_spec };
        assert(change_views(prepared.metadata_updates@) =~= (if table_meta.format_version.number()
            > before.format_version.number() {
            seq![
                MetadataChange::UpgradeFormatVersion {
                    format_version: table_meta.format_version,
                },
            ]
        } else {
            Seq::empty()
        }) + schema_changes(before, schema) + spec_changes(before, spec));
        Ok(prepared)
    }
}

/// The default partition spec after a commit.
pub open spec fn commit_default_spec_id(metadata: TableMetadata, spec: Option<PartitionSpec>) -> i32 {
    match spec {
        Some(spec) => assigned_spec_id(metadata.default_spec_id, spec.spec_id),
        None => metadata.default_spec_id,
    }
}

/// The part of the metadata that the updates of a snapshot change.
#[verifier::ext_equal]
pub struct SnapshotState {
    pub snapshots: Seq<Snapshot>,
    pub current_snapshot_id: Option<i64>,
    pub snapshot_log: Seq<SnapshotLog>,
    pub refs: Seq<(Seq<char>, SnapshotReference)>,
    /// The sequence number of the snapshot that was added last.
    pub newest_sequence: Option<i64>,
    /// The rows that the snapshot which was added last has added.
    pub newest_rows: Option<i64>,
}

/// The state after one update. A new snapshot becomes the current one and is logged; a
/// reference is set; any other update changes nothing.
pub open spec fn snapshot_step(
    state: SnapshotState,
    update: TableUpdate,
    timestamp_ms: i64,
) -> SnapshotState {
    match update {
        TableUpdate::AddSnapshot { snapshot } => SnapshotState {
            snapshots: state.snapshots.push(snapshot),
            current_snapshot_id: Some(snapshot.snapshot_id),
            snapshot_log: state.snapshot_log.push(
                SnapshotLog { timestamp_ms, snapshot_id: snapshot.snapshot_id },
            ),
            newest_sequence: Some(snapshot.sequence_number),
            newest_rows: snapshot.added_rows,
            ..state
        },
        TableUpdate::SetSnapshotRef { ref_name, reference } => SnapshotState {
            refs: stored(state.refs, ref_name@, reference),
            ..state
        },
        _ => state,
    }
}

/// The state after several updates.
pub open spec fn snapshot_steps(
    state: SnapshotState,
    updates: Seq<TableUpdate>,
    timestamp_ms: i64,
) -> SnapshotState
    decreases updates.len(),
{
    if updates.len() == 0 {
        state
    } else {
        snapshot_step(
            snapshot_steps(state, updates.drop_last(), timestamp_ms),
            updates.last(),
            timestamp_ms,
        )
    }
}

/// The part of the metadata that the updates of a snapshot change, before any of them.
pub open spec fn snapshot_state(metadata: TableMetadata) -> SnapshotState {
    SnapshotState {
        snapshots: metadata.snapshots@,
        current_snapshot_id: metadata.current_snapshot_id,
        snapshot_log: metadata.snapshot_log@,
        refs: metadata.refs@,
        newest_sequence: None,
        newest_rows: None,
    }
}

/// The sequence number of the table after a snapshot with the given one.
pub open spec fn advanced_sequence(last: i64, newest: Option<i64>) -> i64 {
    match newest {
        Some(sequence) if sequence > last => sequence,
        _ => last,
    }
}

/// The id that the next row of the table gets, after a snapshot that added some. Only
/// tables of the third format version number their rows.
pub open spec fn advanced_row_id(
    version: FormatVersion,
    next: Option<i64>,
    rows: Option<i64>,
) -> Option<int> {
    let current = match next {
        Some(id) => Some(id as int),
        None => None,
    };
    match rows {
        Some(rows) if version is V3 => Some((match next {
            Some(id) => id as int,
            None => 0,
        }) + rows),
        _ => current,
    }
}

/// The id of the first row that the next snapshot adds, where the table numbers its rows.
pub open spec fn start_row_id(metadata: TableMetadata) -> Option<i64> {
    if metadata.format_version is V3 {
        Some(
            match metadata.next_row_id {
                Some(id) => id,
                None => 0,
            },
        )
    } else {
        None
    }
}

impl TableMetadata {
    /// The id of the first row that the next snapshot adds, where the table numbers its
    /// rows.
    pub fn row_lineage_start_row_id(&self) -> (start: Option<i64>)
        ensures
            start == start_row_id(*self),
    {
        if matches!(self.format_version, FormatVersion::V3) {
            Some(
                match self.next_row_id {
                    Some(id) => id,
                    None => 0,
                },
            )
        } else {
            None
        }
    }
}

/// The metadata after the updates of a new snapshot are applied at the given time, and the
/// metadata file that was current before is logged. The id of the next row stays.
pub open spec fn updates_applied(
    before: TableMetadata,
    after: TableMetadata,
    updates: Seq<TableUpdate>,
    timestamp_ms: i64,
    previous_file: String,
) -> bool {
    let state = snapshot_steps(snapshot_state(before), updates, timestamp_ms);
    &&& after.snapshots@ == state.snapshots
    &&& after.snapshot_log@ == state.snapshot_log
    &&& after.refs@ == state.refs
    &&& after.metadata_log@ == before.metadata_log@.push(
        MetadataLog { timestamp_ms, metadata_file: previous_file },
    )
    &&& after == (TableMetadata {
        snapshots: after.snapshots,
        snapshot_log: after.snapshot_log,
        refs: after.refs,
        metadata_log: after.metadata_log,
        current_snapshot_id: state.current_snapshot_id,
        last_sequence_number: advanced_sequence(
            before.last_sequence_number,
            state.newest_sequence,
        ),
        last_updated_ms: timestamp_ms,
        ..before
    })
}

impl TableMetadata {
    /// Applies the updates of a new snapshot at the given time, and logs the metadata file
    /// that was current before. Returns the rows that the new snapshot has added, where it
    /// says so.
    pub fn apply_action_updates(
        &mut self,
        updates: Vec<TableUpdate>,
        timestamp_ms: i64,
        previous_file: String,
    ) -> (added_rows: Option<i64>)
        ensures
            updates_applied(*old(self), *final(self), updates@, timestamp_ms, previous_file),
            added_rows == snapshot_steps(
                snapshot_state(*old(self)),
                updates@,
                timestamp_ms,
            ).newest_rows,
    {
        let ghost before = *self;
        let ghost all = updates@;
        let ghost start = snapshot_state(before);
        let mut newest_sequence: Option<i64> = None;
        let mut newest_rows: Option<i64> = None;
        for update in iter: updates
            invariant
                iter.seq() == all,
                start == snapshot_state(before),
                ({
                    let state = snapshot_steps(start, all.take(iter.index()), timestamp_ms);
                    &&& self.snapshots@ == state.snapshots
                    &&& self.snapshot_log@ == state.snapshot_log
                    &&& self.refs@ == state.refs
                    &&& newest_sequence == state.newest_sequence
                    &&& newest_rows == state.newest_rows
                    &&& *self == (TableMetadata {
                        snapshots: self.snapshots,
                        snapshot_log: self.snapshot_log,
                        refs: self.refs,
                        current_snapshot_id: state.current_snapshot_id,
                        ..before
                    })
                }),
        {
            let ghost n = iter.index();
            proof {
                assert(all.take(n + 1).drop_last() =~= all.take(n));
                assert(all.take(n + 1).last() == update);
            }
            match update {
                TableUpdate::AddSnapshot { snapshot } => {
                    newest_sequence = Some(snapshot.sequence_number);
                    newest_rows = snapshot.added_rows;
                    self.current_snapshot_id = Some(snapshot.snapshot_id);
                    self.snapshot_log.push(
                        SnapshotLog { timestamp_ms, snapshot_id: snapshot.snapshot_id },
                    );
                    self.snapshots.push(snapshot);
                },
                TableUpdate::SetSnapshotRef { ref_name, reference } => {
                    self.refs.insert(ref_name, reference);
                },
                _ => {},
            }
        }
        assert(all.take(all.len() as int) =~= all);
        match newest_sequence {
            Some(sequence) => {
                if sequence > self.last_sequence_number {
                    self.last_sequence_number = sequence;
                }
            },
            None => {},
        }
        self.last_updated_ms = timestamp_ms;
        self.metadata_log.push(MetadataLog { timestamp_ms, metadata_file: previous_file });
        newest_rows
    }
}

impl IcebergCommitExec {
    /// Applies the updates of a new snapshot to the metadata, at the given time, logs the
    /// metadata file that was current before, and numbers the rows that were added.
    pub fn apply_snapshot_updates(
        table_meta: &mut TableMetadata,
        updates: Vec<TableUpdate>,
        timestamp_ms: i64,
        previous_file: String,
    )
        requires
            ({
                let state = snapshot_steps(snapshot_state(*old(table_meta)), updates@, timestamp_ms);
                advanced_row_id(
                    old(table_meta).format_version,
                    old(table_meta).next_row_id,
                    state.newest_rows,
                ) matches Some(id) ==> i64::MIN <= id <= i64::MAX
            }),
        ensures
            ({
                let before = *old(table_meta);
                let after = *final(table_meta);
                let state = snapshot_steps(snapshot_state(before), updates@, timestamp_ms);
                &&& updates_applied(
                    before,
                    (TableMetadata { next_row_id: before.next_row_id, ..after }),
                    updates@,
                    timestamp_ms,
                    previous_file,
                )
                &&& (match after.next_row_id {
                    Some(id) => Some(id as int),
                    None => None,
                }) == advanced_row_id(before.format_version, before.next_row_id, state.newest_rows)
            }),
    {
        let newest_rows = table_meta.apply_action_updates(updates, timestamp_ms, previous_file);
        match newest_rows {
            Some(rows) => {
                if matches!(table_meta.format_version, FormatVersion::V3) {
                    let next: i64 = match table_meta.next_row_id {
                        Some(id) => id,
                        None => 0,
                    };
                    table_meta.next_row_id = Some(next + rows);
                }
            },
            None => {},
        }
    }
}

/// A schema takes the place of the first one with its id and leaves the others as they are; where
/// there is none, it comes last.
pub proof fn law_schemas_take_their_place(schemas: Seq<Schema>, schema: Schema)
    ensures
        (forall|i: int| 0 <= i < schemas.len() ==> (#[trigger] schemas[i]).schema_id
            != schema.schema_id) ==> with_schema(schemas, schema) == schemas + seq![schema],
        forall|at: int|
            0 <= at < schemas.len() && (#[trigger] schemas[at]).schema_id == schema.schema_id && (
            forall|i: int| 0 <= i < at ==> (#[trigger] schemas[i]).schema_id != schema.schema_id)
                ==> with_schema(schemas, schema) == schemas.update(at, schema),
{
    law_schema_positions(schemas, schema.schema_id);
    assert(schemas.push(schema) =~= schemas + seq![schema]);
    match schema_position(schemas, schema.schema_id) {
        Some(found) => {
            assert(schemas[found].schema_id == schema.schema_id);
            assert forall|at: int|
                0 <= at < schemas.len() && (#[trigger] schemas[at]).schema_id == schema.schema_id
                    && (forall|i: int|
                    0 <= i < at ==> (#[trigger] schemas[i]).schema_id != schema.schema_id) implies at
                == found by {
                if found < at {
                    assert(schemas[found].schema_id != schema.schema_id);
                }
                if at < found {
                    assert(schemas[at].schema_id != schema.schema_id);
                }
            }
        },
        None => {},
    }
}

/// A partition spec takes the place of the first one with its id and leaves the others as they
/// are; where there is none, it comes last.
pub proof fn law_specs_take_their_place(specs: Seq<PartitionSpec>, spec: PartitionSpec)
    ensures
        (forall|i: int| 0 <= i < specs.len() ==> (#[trigger] specs[i]).spec_id != spec.spec_id)
            ==> with_spec(specs, spec) == specs + seq![spec],
        forall|at: int|
            0 <= at < specs.len() && (#[trigger] specs[at]).spec_id == spec.spec_id && (forall|i: int|
                0 <= i < at ==> (#[trigger] specs[i]).spec_id != spec.spec_id) ==> with_spec(
                specs,
                spec,
            ) == specs.update(at, spec),
{
    law_spec_positions(specs, spec.spec_id);
    assert(specs.push(spec) =~= specs + seq![spec]);
    match spec_position(specs, spec.spec_id) {
        Some(found) => {
            assert(specs[found].spec_id == spec.spec_id);
            assert forall|at: int|
                0 <= at < specs.len() && (#[trigger] specs[at]).spec_id == spec.spec_id && (forall|
                    i: int,
                |
                    0 <= i < at ==> (#[trigger] specs[i]).spec_id != spec.spec_id) implies at
                == found by {
                if found < at {
                    assert(specs[found].spec_id != spec.spec_id);
                }
                if at < found {
                    assert(specs[at].spec_id != spec.spec_id);
                }
            }
        },
        None => {},
    }
}

/// The highest field id is that of some field, and no field has a higher one. Only a spec without
/// fields has none.
pub proof fn law_highest_field_ids(fields: Seq<PartitionField>)
    ensures
        match highest_field_id(fields) {
            Some(highest) => (exists|i: int|
                0 <= i < fields.len() && (#[trigger] fields[i]).field_id == highest) && forall|i: int|
                0 <= i < fields.len() ==> (#[trigger] fields[i]).field_id <= highest,
            None => fields.len() == 0,
        },
    decreases fields.len(),
{
    if fields.len() > 0 {
        let init = fields.drop_last();
        let last = fields.len() - 1;
        law_highest_field_ids(init);
        let highest = highest_field_id(fields)->0;
        if highest_field_id(init) is Some {
            let k = choose|k: int|
                0 <= k < init.len() && (#[trigger] init[k]).field_id == highest_field_id(init)->0;
            assert(fields[k] == init[k]);
        }
        assert(fields[last].field_id <= highest);
        assert forall|i: int| 0 <= i < fields.len() implies (#[trigger] fields[i]).field_id
            <= highest by {
            if i < last {
                assert(init[i] == fields[i]);
            }
        }
    }
}

/// Ids and versions only grow: the greater of two is one of them, and not less than either.
pub proof fn law_ids_and_versions_grow(a: i32, b: i32, v: FormatVersion, w: FormatVersion)
    ensures
        greater_id(a, b) >= a && greater_id(a, b) >= b,
        greater_id(a, b) == a || greater_id(a, b) == b,
        later_version(v, w).number() >= v.number() && later_version(v, w).number() >= w.number(),
        later_version(v, w) == v || later_version(v, w) == w,
        FormatVersion::V1.number() < FormatVersion::V2.number() < FormatVersion::V3.number(),
{
}

/// A new schema is announced exactly where the table has none with its id, and chosen exactly
/// where it is not the current one; its announcement comes first. Without a schema there is
/// nothing to announce.
pub proof fn law_new_schemas_are_announced(metadata: TableMetadata, schema: Schema)
    ensures
        ({
            let changes = schema_changes(metadata, Some(schema));
            let known = exists|i: int|
                0 <= i < metadata.schemas@.len() && (#[trigger] metadata.schemas@[i]).schema_id
                    == schema.schema_id;
            let current = metadata.current_schema_id == schema.schema_id;
            let announced = MetadataChange::AddSchema { schema: schema@ };
            let chosen = MetadataChange::SetCurrentSchema { schema_id: schema.schema_id };
            &&& !known && !current ==> changes == seq![announced, chosen]
            &&& !known && current ==> changes == seq![announced]
            &&& known && !current ==> changes == seq![chosen]
            &&& known && current ==> changes.len() == 0
        }),
        schema_changes(metadata, None).len() == 0,
{
    law_schema_positions(metadata.schemas@, schema.schema_id);
    let changes = schema_changes(metadata, Some(schema));
    let announced = MetadataChange::AddSchema { schema: schema@ };
    let chosen = MetadataChange::SetCurrentSchema { schema_id: schema.schema_id };
    if schema_position(metadata.schemas@, schema.schema_id) is Some {
        let at = schema_position(metadata.schemas@, schema.schema_id)->0;
        assert(metadata.schemas@[at].schema_id == schema.schema_id);
        if metadata.current_schema_id != schema.schema_id {
            assert(changes =~= seq![chosen]);
        }
    } else if metadata.current_schema_id == schema.schema_id {
        assert(changes =~= seq![announced]);
    } else {
        assert(changes =~= seq![announced, chosen]);
    }
}

/// A new partition spec that comes without an id gets that of the default spec, and any other
/// keeps its own. It is announced exactly where the table has none with that id, and chosen
/// exactly where that id is not the default. The new files are written under it.
pub proof fn law_new_specs_are_announced(metadata: TableMetadata, spec: PartitionSpec)
    ensures
        ({
            let id = commit_default_spec_id(metadata, Some(spec));
            let changes = spec_changes(metadata, Some(spec));
            let known = exists|i: int|
                0 <= i < metadata.partition_specs@.len() && (
                #[trigger] metadata.partition_specs@[i]).spec_id == id;
            let announced = MetadataChange::AddSpec { fields: unbound_fields(spec@.fields) };
            let chosen = MetadataChange::SetDefaultSpec { spec_id: id };
            &&& id == (if spec.spec_id == 0 {
                metadata.default_spec_id
            } else {
                spec.spec_id
            })
            &&& !known && metadata.default_spec_id != id ==> changes == seq![announced, chosen]
            &&& !known && metadata.default_spec_id == id ==> changes == seq![announced]
            &&& known && metadata.default_spec_id != id ==> changes == seq![chosen]
            &&& known && metadata.default_spec_id == id ==> changes.len() == 0
            &&& commit_spec(metadata, Some(spec)).spec_id == id
            &&& commit_spec(metadata, Some(spec)).fields == spec@.fields
        }),
        spec_changes(metadata, None).len() == 0,
        commit_default_spec_id(metadata, None) == metadata.default_spec_id,
{
    let id = commit_default_spec_id(metadata, Some(spec));
    law_spec_positions(metadata.partition_specs@, id);
    let changes = spec_changes(metadata, Some(spec));
    let announced = MetadataChange::AddSpec { fields: unbound_fields(spec@.fields) };
    let chosen = MetadataChange::SetDefaultSpec { spec_id: id };
    if spec_position(metadata.partition_specs@, id) is Some {
        let at = spec_position(metadata.partition_specs@, id)->0;
        assert(metadata.partition_specs@[at].spec_id == id);
        if metadata.default_spec_id != id {
            assert(changes =~= seq![chosen]);
        }
    } else if metadata.default_spec_id == id {
        assert(changes =~= seq![announced]);
    } else {
        assert(changes =~= seq![announced, chosen]);
    }
}

/// Without a new partition spec, the new files are written under the default spec of the table,
/// and unpartitioned where the table has none.
pub proof fn law_files_stay_under_the_default_spec(metadata: TableMetadata)
    ensures
        match metadata.default_spec_position() {
            Some(at) => commit_spec(metadata, None) == metadata.partition_specs@[at]@,
            None => commit_spec(metadata, None).spec_id == 0 && commit_spec(
                metadata,
                None,
            ).fields.len() == 0,
        },
{
}

/// What each update of a snapshot does: a snapshot that is added comes last, becomes the current
/// one and is logged; a reference that is set leaves the others. No other update changes
/// anything.
pub proof fn law_snapshot_updates(state: SnapshotState, update: TableUpdate, timestamp_ms: i64)
    requires
        distinct_keys(state.refs),
    ensures
        ({
            let after = snapshot_step(state, update, timestamp_ms);
            match update {
                TableUpdate::AddSnapshot { snapshot } => {
                    &&& after.snapshots == state.snapshots + seq![snapshot]
                    &&& after.current_snapshot_id == Some(snapshot.snapshot_id)
                    &&& after.snapshot_log == state.snapshot_log + seq![
                        SnapshotLog { timestamp_ms, snapshot_id: snapshot.snapshot_id },
                    ]
                    &&& after.refs == state.refs
                    &&& after.newest_sequence == Some(snapshot.sequence_number)
                    &&& after.newest_rows == snapshot.added_rows
                },
                TableUpdate::SetSnapshotRef { ref_name, reference } => {
                    &&& value_of(after.refs, ref_name@) == Some(reference)
                    &&& forall|name: Seq<char>|
                        name != ref_name@ ==> #[trigger] value_of(after.refs, name) == value_of(
                            state.refs,
                            name,
                        )
                    &&& after == (SnapshotState { refs: after.refs, ..state })
                },
                _ => after == state,
            }
        }),
{
    match update {
        TableUpdate::AddSnapshot { snapshot } => {
            assert(state.snapshots.push(snapshot) =~= state.snapshots + seq![snapshot]);
            let log = SnapshotLog { timestamp_ms, snapshot_id: snapshot.snapshot_id };
            assert(state.snapshot_log.push(log) =~= state.snapshot_log + seq![log]);
        },
        TableUpdate::SetSnapshotRef { ref_name, reference } => {
            lemma_stored(state.refs, ref_name@, reference);
        },
        _ => {},
    }
}

/// Updates are applied one after the other, in order.
pub proof fn law_updates_follow_each_other(
    state: SnapshotState,
    first: Seq<TableUpdate>,
    rest: Seq<TableUpdate>,
    timestamp_ms: i64,
)
    ensures
        snapshot_steps(state, Seq::empty(), timestamp_ms) == state,
        snapshot_steps(state, first + rest, timestamp_ms) == snapshot_steps(
            snapshot_steps(state, first, timestamp_ms),
            rest,
            timestamp_ms,
        ),
        first.len() == 1 ==> snapshot_steps(state, first, timestamp_ms) == snapshot_step(
            state,
            first[0],
            timestamp_ms,
        ),
    decreases rest.len(),
{
    if rest.len() == 0 {
        assert(first + rest =~= first);
    } else {
        law_updates_follow_each_other(state, first, rest.drop_last(), timestamp_ms);
        assert((first + rest).drop_last() =~= first + rest.drop_last());
    }
    if first.len() == 1 {
        assert(first.drop_last() =~= Seq::<TableUpdate>::empty());
        assert(snapshot_steps(state, first.drop_last(), timestamp_ms) == state);
    }
}

/// The sequence number of a table never falls, and reaches that of the snapshot added last.
pub proof fn law_sequence_numbers_grow(last: i64, newest: Option<i64>)
    ensures
        advanced_sequence(last, newest) >= last,
        newest matches Some(sequence) ==> advanced_sequence(last, newest) >= sequence && (
        advanced_sequence(last, newest) == last || advanced_sequence(last, newest) == sequence),
        newest is None ==> advanced_sequence(last, newest) == last,
{
}

/// A table of the third format version numbers its rows: the first row of a snapshot gets the
/// next number, and the next one after the snapshot follows its rows. Other tables do not.
pub proof fn law_rows_are_numbered(metadata: TableMetadata, rows: Option<i64>)
    ensures
        ({
            let next = advanced_row_id(metadata.format_version, metadata.next_row_id, rows);
            &&& start_row_id(metadata) is Some <==> metadata.format_version is V3
            &&& metadata.format_version is V3 ==> (metadata.next_row_id matches Some(id)
                ==> start_row_id(metadata) == Some(id))
            &&& metadata.format_version is V3 && metadata.next_row_id is None ==> start_row_id(
                metadata,
            ) == Some(0i64)
            &&& (metadata.format_version is V3 && rows is Some) ==> next == Some(
                start_row_id(metadata)->0 + rows->0,
            )
            &&& (!(metadata.format_version is V3) || rows is None) ==> (match metadata.next_row_id {
                Some(id) => next == Some(id as int),
                None => next is None,
            })
        }),
{
}

/// A new snapshot leaves everything else of the table as it was, is recorded at its time, and the
/// metadata file before it is logged behind those that were logged already.
pub proof fn law_new_snapshots_leave_the_rest(
    before: TableMetadata,
    after: TableMetadata,
    updates: Seq<TableUpdate>,
    timestamp_ms: i64,
    previous_file: String,
)
    requires
        updates_applied(before, after, updates, timestamp_ms, previous_file),
    ensures
        after.last_updated_ms == timestamp_ms,
        after.metadata_log@.len() == before.metadata_log@.len() + 1,
        after.metadata_log@.last().metadata_file == previous_file,
        after.metadata_log@.last().timestamp_ms == timestamp_ms,
        after.metadata_log@.drop_last() == before.metadata_log@,
        after.table_uuid == before.table_uuid,
        after.schemas == before.schemas && after.current_schema_id == before.current_schema_id,
        after.partition_specs == before.partition_specs && after.default_spec_id
            == before.default_spec_id,
        after.last_column_id == before.last_column_id && after.last_partition_id
            == before.last_partition_id,
        after.default_sort_order_id == before.default_sort_order_id,
        after.properties == before.properties,
        after.next_row_id == before.next_row_id,
{
    assert(after.metadata_log@.drop_last() =~= before.metadata_log@);
}

} // verus!

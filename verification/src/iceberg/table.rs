//! Table metadata and what it is made of.

use vstd::prelude::*;
use vstd::string::*;

use crate::string_map::StringMap;

verus! {

use crate::assoc::value_of;

/// The branch that readers and writers use unless told otherwise.
pub const MAIN_BRANCH: &'static str = "main";

#[derive(Debug, Clone, Copy, PartialEq, Eq, Structural)]
pub enum FormatVersion {
    V1,
    V2,
    V3,
}

impl FormatVersion {
    /// The number of the version.
    pub open spec fn number(self) -> int {
        match self {
            FormatVersion::V1 => 1,
            FormatVersion::V2 => 2,
            FormatVersion::V3 => 3,
        }
    }

    /// Whether this version comes after another.
    pub fn is_after(self, other: FormatVersion) -> (after: bool)
        ensures
            after == (self.number() > other.number()),
    {
        match self {
            FormatVersion::V1 => false,
            FormatVersion::V2 => matches!(other, FormatVersion::V1),
            FormatVersion::V3 => !matches!(other, FormatVersion::V3),
        }
    }

    /// The later of two versions.
    pub fn later(self, other: FormatVersion) -> (version: FormatVersion)
        ensures
            version == later_version(self, other),
    {
        if other.is_after(self) {
            other
        } else {
            self
        }
    }
}

/// The later of two versions.
pub open spec fn later_version(a: FormatVersion, b: FormatVersion) -> FormatVersion {
    if b.number() > a.number() {
        b
    } else {
        a
    }
}

/// What a snapshot did to the table.
#[derive(Debug, Clone, Copy, PartialEq, Eq, Structural)]
pub enum Operation {
    Append,
    Replace,
    Overwrite,
    Delete,
}

#[derive(Debug, Clone, Copy, PartialEq, Eq, Structural)]
pub enum DataContentType {
    Data,
    PositionDeletes,
    EqualityDeletes,
}

#[derive(Debug, Clone, Copy, PartialEq, Eq, Structural)]
pub enum DataFileFormat {
    Avro,
    Orc,
    Parquet,
    Puffin,
}

/// A file that holds rows or deletes of a table.
#[derive(Debug)]
pub struct DataFile {
    pub content: DataContentType,
    pub file_path: String,
    pub file_format: DataFileFormat,
    /// The partition values, each as text.
    pub partition: Vec<String>,
    pub record_count: u64,
    pub file_size_in_bytes: u64,
    pub column_sizes: Vec<(i32, u64)>,
    pub value_counts: Vec<(i32, u64)>,
    pub null_value_counts: Vec<(i32, u64)>,
    pub nan_value_counts: Vec<(i32, u64)>,
    pub lower_bounds: Vec<(i32, Vec<u8>)>,
    pub upper_bounds: Vec<(i32, Vec<u8>)>,
    pub block_size_in_bytes: Option<i64>,
    pub key_metadata: Option<Vec<u8>>,
    pub split_offsets: Vec<i64>,
    pub equality_ids: Vec<i32>,
    pub sort_order_id: Option<i32>,
    pub first_row_id: Option<i64>,
    pub partition_spec_id: i32,
    pub referenced_data_file: Option<String>,
    pub content_offset: Option<i64>,
    pub content_size_in_bytes: Option<i64>,
}

#[derive(Debug)]
pub struct SchemaField {
    pub id: i32,
    pub name: String,
    /// The type, as text.
    pub field_type: String,
    pub required: bool,
}

#[derive(Debug)]
pub struct Schema {
    pub schema_id: i32,
    pub fields: Vec<SchemaField>,
    /// The highest field id, over nested fields too.
    pub highest_field_id: i32,
    /// The earliest format version whose types the schema keeps to.
    pub min_format_version: FormatVersion,
}

#[derive(Debug)]
pub struct PartitionField {
    pub source_id: i32,
    pub field_id: i32,
    pub name: String,
    /// The transform, as text.
    pub transform: String,
}

#[derive(Debug)]
pub struct PartitionSpec {
    pub spec_id: i32,
    pub fields: Vec<PartitionField>,
}

#[derive(Debug)]
pub struct UnboundPartitionField {
    pub source_id: i32,
    pub name: String,
    pub transform: String,
}

/// A partition spec without ids of its own.
#[derive(Debug)]
pub struct UnboundPartitionSpec {
    pub fields: Vec<UnboundPartitionField>,
}

/// What a snapshot did, and its counters as text.
#[derive(Debug)]
pub struct Summary {
    pub operation: Operation,
    pub additional_properties: StringMap<String>,
}

#[derive(Debug)]
pub struct Snapshot {
    pub snapshot_id: i64,
    pub parent_snapshot_id: Option<i64>,
    pub sequence_number: i64,
    pub timestamp_ms: i64,
    pub manifest_list: String,
    pub summary: Summary,
    pub schema_id: Option<i32>,
    pub first_row_id: Option<i64>,
    pub added_rows: Option<i64>,
}

#[derive(Debug, Clone, Copy, PartialEq, Eq, Structural)]
pub enum SnapshotRetention {
    Branch {
        min_snapshots_to_keep: Option<i32>,
        max_snapshot_age_ms: Option<i64>,
        max_ref_age_ms: Option<i64>,
    },
    Tag { max_ref_age_ms: Option<i64> },
}

/// A named pointer to a snapshot.
#[derive(Debug, Clone, Copy, PartialEq, Eq, Structural)]
pub struct SnapshotReference {
    pub snapshot_id: i64,
    pub retention: SnapshotRetention,
}

impl SnapshotReference {
    pub open spec fn spec_max_ref_age_ms(self) -> Option<i64> {
        match self.retention {
            SnapshotRetention::Branch { max_ref_age_ms, .. } => max_ref_age_ms,
            SnapshotRetention::Tag { max_ref_age_ms } => max_ref_age_ms,
        }
    }

    pub open spec fn spec_min_snapshots_to_keep(self) -> Option<i32> {
        match self.retention {
            SnapshotRetention::Branch { min_snapshots_to_keep, .. } => min_snapshots_to_keep,
            SnapshotRetention::Tag { .. } => None,
        }
    }

    pub open spec fn spec_max_snapshot_age_ms(self) -> Option<i64> {
        match self.retention {
            SnapshotRetention::Branch { max_snapshot_age_ms, .. } => max_snapshot_age_ms,
            SnapshotRetention::Tag { .. } => None,
        }
    }

    pub fn max_ref_age_ms(&self) -> (age: Option<i64>)
        ensures
            age == self.spec_max_ref_age_ms(),
    {
        match self.retention {
            SnapshotRetention::Branch { max_ref_age_ms, .. } => max_ref_age_ms,
            SnapshotRetention::Tag { max_ref_age_ms } => max_ref_age_ms,
        }
    }

    pub fn min_snapshots_to_keep(&self) -> (count: Option<i32>)
        ensures
            count == self.spec_min_snapshots_to_keep(),
    {
        match self.retention {
            SnapshotRetention::Branch { min_snapshots_to_keep, .. } => min_snapshots_to_keep,
            SnapshotRetention::Tag { .. } => None,
        }
    }

    pub fn max_snapshot_age_ms(&self) -> (age: Option<i64>)
        ensures
            age == self.spec_max_snapshot_age_ms(),
    {
        match self.retention {
            SnapshotRetention::Branch { max_snapshot_age_ms, .. } => max_snapshot_age_ms,
            SnapshotRetention::Tag { .. } => None,
        }
    }

    pub fn is_branch(&self) -> (branch: bool)
        ensures
            branch == (self.retention is Branch),
    {
        matches!(self.retention, SnapshotRetention::Branch { .. })
    }
}

/// When a snapshot became the current one.
#[derive(Debug, Clone, Copy, PartialEq, Eq, Structural)]
pub struct SnapshotLog {
    pub timestamp_ms: i64,
    pub snapshot_id: i64,
}

/// When a metadata file stopped being the current one.
#[derive(Debug)]
pub struct MetadataLog {
    pub timestamp_ms: i64,
    pub metadata_file: String,
}

#[derive(Debug)]
pub struct StatisticsFile {
    pub snapshot_id: i64,
    pub statistics_path: String,
    pub file_size_in_bytes: i64,
}

#[derive(Debug)]
pub struct PartitionStatisticsFile {
    pub snapshot_id: i64,
    pub statistics_path: String,
    pub file_size_in_bytes: i64,
}

/// The state of a table.
#[derive(Debug)]
pub struct TableMetadata {
    pub format_version: FormatVersion,
    pub table_uuid: Option<u128>,
    pub location: String,
    pub last_sequence_number: i64,
    pub last_updated_ms: i64,
    pub last_column_id: i32,
    pub schemas: Vec<Schema>,
    pub current_schema_id: i32,
    pub partition_specs: Vec<PartitionSpec>,
    pub default_spec_id: i32,
    pub last_partition_id: i32,
    pub properties: StringMap<String>,
    pub current_snapshot_id: Option<i64>,
    pub next_row_id: Option<i64>,
    pub snapshots: Vec<Snapshot>,
    pub snapshot_log: Vec<SnapshotLog>,
    pub metadata_log: Vec<MetadataLog>,
    pub default_sort_order_id: Option<i32>,
    pub refs: StringMap<SnapshotReference>,
    pub statistics: Vec<StatisticsFile>,
    pub partition_statistics: Vec<PartitionStatisticsFile>,
}

/// The position of the first snapshot with the given id.
pub open spec fn snapshot_position(snapshots: Seq<Snapshot>, id: i64) -> Option<int>
    decreases snapshots.len(),
{
    if snapshots.len() == 0 {
        None
    } else {
        match snapshot_position(snapshots.drop_last(), id) {
            Some(i) => Some(i),
            None => if snapshots.last().snapshot_id == id {
                Some(snapshots.len() - 1)
            } else {
                None
            },
        }
    }
}

/// A snapshot's position is in range and its snapshot has the id; where there is no
/// position, no snapshot has the id.
pub proof fn lemma_snapshot_position(snapshots: Seq<Snapshot>, id: i64)
    ensures
        snapshot_position(snapshots, id) matches Some(i) ==> 0 <= i < snapshots.len()
            && snapshots[i].snapshot_id == id,
        snapshot_position(snapshots, id) is None ==> forall|i: int|
            0 <= i < snapshots.len() ==> (#[trigger] snapshots[i]).snapshot_id != id,
    decreases snapshots.len(),
{
    if snapshots.len() > 0 {
        let init = snapshots.drop_last();
        lemma_snapshot_position(init, id);
        if snapshot_position(snapshots, id) is None {
            assert forall|i: int| 0 <= i < snapshots.len() implies (
            #[trigger] snapshots[i]).snapshot_id != id by {
                if i < init.len() {
                    assert(init[i].snapshot_id != id);
                }
            }
        }
    }
}

/// A position found in a prefix is found in the whole.
pub proof fn lemma_snapshot_position_prefix(snapshots: Seq<Snapshot>, n: int, id: i64)
    requires
        0 <= n <= snapshots.len(),
    ensures
        snapshot_position(snapshots.take(n), id) is Some ==> snapshot_position(snapshots, id)
            == snapshot_position(snapshots.take(n), id),
    decreases snapshots.len() - n,
{
    if n < snapshots.len() {
        assert(snapshots.take(n + 1).drop_last() =~= snapshots.take(n));
        lemma_snapshot_position_prefix(snapshots, n + 1, id);
    } else {
        assert(snapshots.take(n) =~= snapshots);
    }
}

impl TableMetadata {
    /// The position of the snapshot with the given id.
    pub fn snapshot_index(&self, id: i64) -> (at: Option<usize>)
        ensures
            match at {
                Some(i) => snapshot_position(self.snapshots@, id) == Some(i as int) && i
                    < self.snapshots@.len() && self.snapshots@[i as int].snapshot_id == id,
                None => snapshot_position(self.snapshots@, id) is None,
            },
    {
        for i in 0..self.snapshots.len()
            invariant
                snapshot_position(self.snapshots@.take(i as int), id) is None,
        {
            assert(self.snapshots@.take(i + 1).drop_last() =~= self.snapshots@.take(i as int));
            if self.snapshots[i].snapshot_id == id {
                proof {
                    lemma_snapshot_position_prefix(self.snapshots@, i + 1, id);
                }
                return Some(i);
            }
        }
        assert(self.snapshots@.take(self.snapshots@.len() as int) =~= self.snapshots@);
        None
    }

    /// The snapshot with the given id.
    pub fn snapshot(&self, id: i64) -> (snapshot: Option<&Snapshot>)
        ensures
            match snapshot {
                Some(s) => snapshot_position(self.snapshots@, id) matches Some(i)
                    && self.snapshots@[i] == *s && s.snapshot_id == id,
                None => snapshot_position(self.snapshots@, id) is None,
            },
    {
        match self.snapshot_index(id) {
            Some(i) => Some(&self.snapshots[i]),
            None => None,
        }
    }

    /// The current snapshot, where there is one.
    pub fn current_snapshot(&self) -> (snapshot: Option<&Snapshot>)
        ensures
            snapshot is Some <==> self.current_position() is Some,
            snapshot matches Some(s) ==> self.current_position() matches Some(i)
                && self.snapshots@[i] == *s && Some(s.snapshot_id) == self.current_snapshot_id,
    {
        match self.current_snapshot_id {
            Some(id) => self.snapshot(id),
            None => None,
        }
    }

    /// The position of the current snapshot, where there is one.
    pub open spec fn current_position(&self) -> Option<int> {
        match self.current_snapshot_id {
            Some(id) => snapshot_position(self.snapshots@, id),
            None => None,
        }
    }

    /// The position of the current schema, where there is one.
    pub open spec fn current_schema_position(&self) -> Option<int> {
        schema_position(self.schemas@, self.current_schema_id)
    }

    /// The position of the current schema, where there is one.
    pub fn current_schema_index(&self) -> (at: Option<usize>)
        ensures
            match at {
                Some(i) => self.current_schema_position() == Some(i as int) && i
                    < self.schemas@.len(),
                None => self.current_schema_position() is None,
            },
    {
        find_schema(&self.schemas, self.current_schema_id)
    }

    /// The position of the default partition spec, where there is one.
    pub open spec fn default_spec_position(&self) -> Option<int> {
        spec_position(self.partition_specs@, self.default_spec_id)
    }

    /// The position of the default partition spec, where there is one.
    pub fn default_spec_index(&self) -> (at: Option<usize>)
        ensures
            match at {
                Some(i) => self.default_spec_position() == Some(i as int) && i
                    < self.partition_specs@.len(),
                None => self.default_spec_position() is None,
            },
    {
        find_spec(&self.partition_specs, self.default_spec_id)
    }

    /// The reference with the given name.
    pub open spec fn reference(&self, name: Seq<char>) -> Option<SnapshotReference> {
        value_of(self.refs@, name)
    }
}

/// The position of the first schema with the given id.
pub open spec fn schema_position(schemas: Seq<Schema>, id: i32) -> Option<int>
    decreases schemas.len(),
{
    if schemas.len() == 0 {
        None
    } else {
        match schema_position(schemas.drop_last(), id) {
            Some(i) => Some(i),
            None => if schemas.last().schema_id == id {
                Some(schemas.len() - 1)
            } else {
                None
            },
        }
    }
}

proof fn lemma_schema_position_prefix(schemas: Seq<Schema>, n: int, id: i32)
    requires
        0 <= n <= schemas.len(),
    ensures
        schema_position(schemas.take(n), id) is Some ==> schema_position(schemas, id)
            == schema_position(schemas.take(n), id),
    decreases schemas.len() - n,
{
    if n < schemas.len() {
        assert(schemas.take(n + 1).drop_last() =~= schemas.take(n));
        lemma_schema_position_prefix(schemas, n + 1, id);
    } else {
        assert(schemas.take(n) =~= schemas);
    }
}

/// The position of the first schema with the given id.
pub fn find_schema(schemas: &Vec<Schema>, id: i32) -> (at: Option<usize>)
    ensures
        match at {
            Some(i) => schema_position(schemas@, id) == Some(i as int) && i < schemas@.len()
                && schemas@[i as int].schema_id == id,
            None => schema_position(schemas@, id) is None,
        },
{
    for i in 0..schemas.len()
        invariant
            schema_position(schemas@.take(i as int), id) is None,
    {
        assert(schemas@.take(i + 1).drop_last() =~= schemas@.take(i as int));
        if schemas[i].schema_id == id {
            proof {
                lemma_schema_position_prefix(schemas@, i + 1, id);
            }
            return Some(i);
        }
    }
    assert(schemas@.take(schemas@.len() as int) =~= schemas@);
    None
}

/// The position of the first partition spec with the given id.
pub open spec fn spec_position(specs: Seq<PartitionSpec>, id: i32) -> Option<int>
    decreases specs.len(),
{
    if specs.len() == 0 {
        None
    } else {
        match spec_position(specs.drop_last(), id) {
            Some(i) => Some(i),
            None => if specs.last().spec_id == id {
                Some(specs.len() - 1)
            } else {
                None
            },
        }
    }
}

proof fn lemma_spec_position_prefix(specs: Seq<PartitionSpec>, n: int, id: i32)
    requires
        0 <= n <= specs.len(),
    ensures
        spec_position(specs.take(n), id) is Some ==> spec_position(specs, id) == spec_position(
            specs.take(n),
            id,
        ),
    decreases specs.len() - n,
{
    if n < specs.len() {
        assert(specs.take(n + 1).drop_last() =~= specs.take(n));
        lemma_spec_position_prefix(specs, n + 1, id);
    } else {
        assert(specs.take(n) =~= specs);
    }
}

/// The position of the first partition spec with the given id.
pub fn find_spec(specs: &Vec<PartitionSpec>, id: i32) -> (at: Option<usize>)
    ensures
        match at {
            Some(i) => spec_position(specs@, id) == Some(i as int) && i < specs@.len()
                && specs@[i as int].spec_id == id,
            None => spec_position(specs@, id) is None,
        },
{
    for i in 0..specs.len()
        invariant
            spec_position(specs@.take(i as int), id) is None,
    {
        assert(specs@.take(i + 1).drop_last() =~= specs@.take(i as int));
        if specs[i].spec_id == id {
            proof {
                lemma_spec_position_prefix(specs@, i + 1, id);
            }
            return Some(i);
        }
    }
    assert(specs@.take(specs@.len() as int) =~= specs@);
    None
}

/// A change of a table's metadata.
#[derive(Debug)]
pub enum TableUpdate {
    UpgradeFormatVersion { format_version: FormatVersion },
    AddSchema { schema: Schema },
    SetCurrentSchema { schema_id: i32 },
    AddSpec { spec: UnboundPartitionSpec },
    SetDefaultSpec { spec_id: i32 },
    AddSnapshot { snapshot: Snapshot },
    SetSnapshotRef { ref_name: String, reference: SnapshotReference },
    RemoveSnapshots { snapshot_ids: Vec<i64> },
    RemoveSnapshotRef { ref_name: String },
}

/// What must hold of a table for a commit to go through.
#[derive(Debug)]
pub enum TableRequirement {
    NotExist,
    UuidMatch { uuid: u128 },
    RefSnapshotIdMatch { ref_name: String, snapshot_id: Option<i64> },
    LastAssignedFieldIdMatch { last_assigned_field_id: i32 },
    CurrentSchemaIdMatch { current_schema_id: i32 },
    LastAssignedPartitionIdMatch { last_assigned_partition_id: i32 },
    DefaultSpecIdMatch { default_spec_id: i32 },
    DefaultSortOrderIdMatch { default_sort_order_id: i64 },
}

/// The position of a snapshot is the first one with its id.
pub proof fn law_snapshot_positions(snapshots: Seq<Snapshot>, id: i64)
    ensures
        match snapshot_position(snapshots, id) {
            Some(at) => 0 <= at < snapshots.len() && snapshots[at].snapshot_id == id && forall|i: int|
                0 <= i < at ==> (#[trigger] snapshots[i]).snapshot_id != id,
            None => forall|i: int|
                0 <= i < snapshots.len() ==> (#[trigger] snapshots[i]).snapshot_id != id,
        },
    decreases snapshots.len(),
{
    if snapshots.len() > 0 {
        let init = snapshots.drop_last();
        law_snapshot_positions(init, id);
        assert forall|i: int| 0 <= i < init.len() implies init[i] == #[trigger] snapshots[i] by {}
        if snapshot_position(init, id) is None {
            assert forall|i: int| 0 <= i < init.len() implies (
            #[trigger] snapshots[i]).snapshot_id != id by {
                assert(init[i] == snapshots[i]);
            }
        }
    }
}

/// The position of a schema is the first one with its id.
pub proof fn law_schema_positions(schemas: Seq<Schema>, id: i32)
    ensures
        match schema_position(schemas, id) {
            Some(at) => 0 <= at < schemas.len() && schemas[at].schema_id == id && forall|i: int|
                0 <= i < at ==> (#[trigger] schemas[i]).schema_id != id,
            None => forall|i: int|
                0 <= i < schemas.len() ==> (#[trigger] schemas[i]).schema_id != id,
        },
    decreases schemas.len(),
{
    if schemas.len() > 0 {
        let init = schemas.drop_last();
        law_schema_positions(init, id);
        assert forall|i: int| 0 <= i < init.len() implies init[i] == #[trigger] schemas[i] by {}
        if schema_position(init, id) is None {
            assert forall|i: int| 0 <= i < init.len() implies (#[trigger] schemas[i]).schema_id
                != id by {
                assert(init[i] == schemas[i]);
            }
        }
    }
}

/// The position of a partition spec is the first one with its id.
pub proof fn law_spec_positions(specs: Seq<PartitionSpec>, id: i32)
    ensures
        match spec_position(specs, id) {
            Some(at) => 0 <= at < specs.len() && specs[at].spec_id == id && forall|i: int|
                0 <= i < at ==> (#[trigger] specs[i]).spec_id != id,
            None => forall|i: int| 0 <= i < specs.len() ==> (#[trigger] specs[i]).spec_id != id,
        },
    decreases specs.len(),
{
    if specs.len() > 0 {
        let init = specs.drop_last();
        law_spec_positions(init, id);
        assert forall|i: int| 0 <= i < init.len() implies init[i] == #[trigger] specs[i] by {}
        if spec_position(init, id) is None {
            assert forall|i: int| 0 <= i < init.len() implies (#[trigger] specs[i]).spec_id
                != id by {
                assert(init[i] == specs[i]);
            }
        }
    }
}

/// The current snapshot is the one whose id the metadata names; without an id there is none.
pub proof fn law_current_snapshots(metadata: TableMetadata)
    ensures
        match metadata.current_position() {
            Some(at) => 0 <= at < metadata.snapshots@.len() && metadata.current_snapshot_id == Some(
                metadata.snapshots@[at].snapshot_id,
            ),
            None => metadata.current_snapshot_id matches Some(id) ==> forall|i: int|
                0 <= i < metadata.snapshots@.len() ==> (
                #[trigger] metadata.snapshots@[i]).snapshot_id != id,
        },
        match metadata.current_schema_position() {
            Some(at) => 0 <= at < metadata.schemas@.len() && metadata.schemas@[at].schema_id
                == metadata.current_schema_id,
            None => forall|i: int|
                0 <= i < metadata.schemas@.len() ==> (#[trigger] metadata.schemas@[i]).schema_id
                    != metadata.current_schema_id,
        },
        match metadata.default_spec_position() {
            Some(at) => 0 <= at < metadata.partition_specs@.len()
                && metadata.partition_specs@[at].spec_id == metadata.default_spec_id,
            None => forall|i: int|
                0 <= i < metadata.partition_specs@.len() ==> (
                #[trigger] metadata.partition_specs@[i]).spec_id != metadata.default_spec_id,
        },
{
    match metadata.current_snapshot_id {
        Some(id) => law_snapshot_positions(metadata.snapshots@, id),
        None => {},
    }
    law_schema_positions(metadata.schemas@, metadata.current_schema_id);
    law_spec_positions(metadata.partition_specs@, metadata.default_spec_id);
}

} // verus!

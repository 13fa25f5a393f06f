//! The metadata of a table as tables of their own: its snapshots and its references.

use vstd::prelude::*;
use vstd::string::*;

use crate::iceberg::table::{Operation, Snapshot, SnapshotReference, TableMetadata};

verus! {

use crate::iceberg::contents::{text_pairs, texts};
use crate::iceberg::table::SnapshotRetention;

/// Which of the tables is asked for.
#[derive(Debug, Clone, Copy, PartialEq, Eq, Structural)]
pub enum IcebergMetadataTableType {
    Snapshots,
    Refs,
}

/// The name of an operation in the summary of a snapshot.
pub open spec fn operation_word(operation: Operation) -> Seq<char> {
    match operation {
        Operation::Append => "append"@,
        Operation::Replace => "replace"@,
        Operation::Overwrite => "overwrite"@,
        Operation::Delete => "delete"@,
    }
}

impl Operation {
    /// The name of the operation in the summary of a snapshot.
    pub fn as_str(self) -> (word: &'static str)
        ensures
            word@ == operation_word(self),
    {
        match self {
            Operation::Append => "append",
            Operation::Replace => "replace",
            Operation::Overwrite => "overwrite",
            Operation::Delete => "delete",
        }
    }
}

/// A row of the table of snapshots.
#[derive(Debug)]
pub struct SnapshotRow {
    /// Microseconds since the epoch.
    pub committed_at: i64,
    pub snapshot_id: i64,
    pub parent_id: Option<i64>,
    pub operation: String,
    pub manifest_list: Option<String>,
    pub summary: Vec<(String, String)>,
}

/// The summary of a snapshot: its operation, then its properties.
pub open spec fn summary_entries(snapshot: Snapshot) -> Seq<(Seq<char>, Seq<char>)> {
    seq![("operation"@, operation_word(snapshot.summary.operation))]
        + snapshot.summary.additional_properties@.map_values(
        |entry: (Seq<char>, String)| (entry.0, entry.1@),
    )
}

/// Whether a row is that of a snapshot.
pub open spec fn is_snapshot_row(row: SnapshotRow, snapshot: Snapshot) -> bool {
    &&& row.committed_at == snapshot.timestamp_ms * 1000
    &&& row.snapshot_id == snapshot.snapshot_id
    &&& row.parent_id == snapshot.parent_snapshot_id
    &&& row.operation@ == operation_word(snapshot.summary.operation)
    &&& match row.manifest_list {
        Some(list) => list@ == snapshot.manifest_list@ && list@.len() > 0,
        None => snapshot.manifest_list@.len() == 0,
    }
    &&& text_pairs(row.summary@) == summary_entries(snapshot)
}

/// Whether the time of a snapshot can be told in microseconds.
pub open spec fn time_fits(snapshot: Snapshot) -> bool {
    i64::MIN <= snapshot.timestamp_ms * 1000 <= i64::MAX
}

/// Whether the times of all snapshots can be told in microseconds.
pub fn check_times(metadata: &TableMetadata) -> (fit: bool)
    ensures
        fit <==> forall|i: int|
            0 <= i < metadata.snapshots@.len() ==> time_fits(#[trigger] metadata.snapshots@[i]),
{
    for i in 0..metadata.snapshots.len()
        invariant
            forall|j: int| 0 <= j < i ==> time_fits(#[trigger] metadata.snapshots@[j]),
    {
        if metadata.snapshots[i].timestamp_ms.checked_mul(1000).is_none() {
            assert(!time_fits(metadata.snapshots@[i as int]));
            return false;
        }
    }
    true
}

fn summary_of(snapshot: &Snapshot) -> (entries: Vec<(String, String)>)
    ensures
        text_pairs(entries@) == summary_entries(*snapshot),
{
    let ghost all = snapshot.summary.additional_properties@;
    let ghost shown = all.map_values(|entry: (Seq<char>, String)| (entry.0, entry.1@));
    let ghost head = seq![("operation"@, operation_word(snapshot.summary.operation))];
    let mut entries: Vec<(String, String)> = Vec::new();
    entries.push(("operation".to_owned(), snapshot.summary.operation.as_str().to_owned()));
    assert(text_pairs(entries@) =~= head + shown.take(0));
    let count: usize = snapshot.summary.additional_properties.len();
    for i in 0..count
        invariant
            all == snapshot.summary.additional_properties@,
            count == all.len(),
            shown == all.map_values(|entry: (Seq<char>, String)| (entry.0, entry.1@)),
            text_pairs(entries@) == head + shown.take(i as int),
    {
        let ghost before = text_pairs(entries@);
        let (key, value) = snapshot.summary.additional_properties.entry(i);
        entries.push((key.clone(), value.clone()));
        assert(shown[i as int] == (key@, value@));
        assert(text_pairs(entries@) =~= before.push((key@, value@)));
        assert(head + shown.take(i + 1) =~= before.push((key@, value@)));
    }
    assert(shown.take(shown.len() as int) =~= shown);
    entries
}

/// The rows of the table of snapshots.
pub fn snapshots_rows(metadata: &TableMetadata) -> (rows: Vec<SnapshotRow>)
    requires
        forall|i: int|
            0 <= i < metadata.snapshots@.len() ==> time_fits(#[trigger] metadata.snapshots@[i]),
    ensures
        rows@.len() == metadata.snapshots@.len(),
        forall|i: int|
            0 <= i < rows@.len() ==> is_snapshot_row(#[trigger] rows@[i], metadata.snapshots@[i]),
{
    let mut rows: Vec<SnapshotRow> = Vec::new();
    for i in 0..metadata.snapshots.len()
        invariant
            forall|j: int|
                0 <= j < metadata.snapshots@.len() ==> time_fits(
                    #[trigger] metadata.snapshots@[j],
                ),
            rows@.len() == i,
            forall|j: int|
                0 <= j < i ==> is_snapshot_row(#[trigger] rows@[j], metadata.snapshots@[j]),
    {
        let snapshot = &metadata.snapshots[i];
        assert(time_fits(metadata.snapshots@[i as int]));
        let manifest_list = if snapshot.manifest_list.as_str().unicode_len() == 0 {
            None
        } else {
            Some(snapshot.manifest_list.clone())
        };
        rows.push(
            SnapshotRow {
                committed_at: snapshot.timestamp_ms * 1000,
                snapshot_id: snapshot.snapshot_id,
                parent_id: snapshot.parent_snapshot_id,
                operation: snapshot.summary.operation.as_str().to_owned(),
                manifest_list,
                summary: summary_of(snapshot),
            },
        );
    }
    rows
}

/// The summaries of several rows as one list of keys and one of values, with the places where
/// the rows begin and end.
#[derive(Debug)]
pub struct SummaryColumns {
    pub keys: Vec<String>,
    pub values: Vec<String>,
    pub offsets: Vec<i32>,
}

/// The entries of the summaries of rows, in order.
pub open spec fn all_entries(rows: Seq<SnapshotRow>) -> Seq<(Seq<char>, Seq<char>)>
    decreases rows.len(),
{
    if rows.len() == 0 {
        Seq::empty()
    } else {
        all_entries(rows.drop_last()) + text_pairs(rows.last().summary@)
    }
}

/// The keys of entries.
pub open spec fn entry_keys(entries: Seq<(Seq<char>, Seq<char>)>) -> Seq<Seq<char>> {
    entries.map_values(|entry: (Seq<char>, Seq<char>)| entry.0)
}

/// The values of entries.
pub open spec fn entry_values(entries: Seq<(Seq<char>, Seq<char>)>) -> Seq<Seq<char>> {
    entries.map_values(|entry: (Seq<char>, Seq<char>)| entry.1)
}

proof fn lemma_entries_grow(rows: Seq<SnapshotRow>, n: int)
    requires
        0 <= n <= rows.len(),
    ensures
        all_entries(rows.take(n)).len() <= all_entries(rows).len(),
    decreases rows.len() - n,
{
    if n < rows.len() {
        lemma_entries_grow(rows, n + 1);
        assert(rows.take(n + 1).drop_last() =~= rows.take(n));
    } else {
        assert(rows.take(n) =~= rows);
    }
}

/// The summaries of rows as columns.
pub fn summary_columns(rows: &Vec<SnapshotRow>) -> (columns: SummaryColumns)
    requires
        all_entries(rows@).len() <= i32::MAX,
    ensures
        texts(columns.keys@) == entry_keys(all_entries(rows@)),
        texts(columns.values@) == entry_values(all_entries(rows@)),
        columns.offsets@.len() == rows@.len() + 1,
        forall|i: int|
            0 <= i <= rows@.len() ==> #[trigger] columns.offsets@[i] == all_entries(
                rows@.take(i),
            ).len(),
{
    let mut keys: Vec<String> = Vec::new();
    let mut values: Vec<String> = Vec::new();
    let mut offsets: Vec<i32> = Vec::new();
    offsets.push(0);
    assert(texts(keys@) =~= entry_keys(all_entries(rows@.take(0))));
    assert(texts(values@) =~= entry_values(all_entries(rows@.take(0))));
    for r in 0..rows.len()
        invariant
            all_entries(rows@).len() <= i32::MAX,
            texts(keys@) == entry_keys(all_entries(rows@.take(r as int))),
            texts(values@) == entry_values(all_entries(rows@.take(r as int))),
            offsets@.len() == r + 1,
            forall|i: int|
                0 <= i <= r ==> #[trigger] offsets@[i] == all_entries(rows@.take(i)).len(),
    {
        let ghost so_far = all_entries(rows@.take(r as int));
        let ghost entries = text_pairs(rows@[r as int].summary@);
        proof {
            assert(rows@.take(r + 1).drop_last() =~= rows@.take(r as int));
            lemma_entries_grow(rows@, r + 1);
            assert(so_far + entries.take(0) =~= so_far);
        }
        let summary = &rows[r].summary;
        for i in 0..summary.len()
            invariant
                entries == text_pairs(summary@),
                texts(keys@) == entry_keys(so_far + entries.take(i as int)),
                texts(values@) == entry_values(so_far + entries.take(i as int)),
        {
            let ghost keys_before = texts(keys@);
            let ghost values_before = texts(values@);
            keys.push(summary[i].0.clone());
            values.push(summary[i].1.clone());
            proof {
                let entry = entries[i as int];
                let longer = so_far + entries.take(i + 1);
                assert(longer =~= (so_far + entries.take(i as int)).push(entry));
                assert(texts(keys@) =~= keys_before.push(entry.0));
                assert(texts(values@) =~= values_before.push(entry.1));
                assert(entry_keys(longer) =~= keys_before.push(entry.0));
                assert(entry_values(longer) =~= values_before.push(entry.1));
            }
        }
        assert(entries.take(entries.len() as int) =~= entries);
        assert(texts(keys@).len() == keys@.len());
        assert(keys@.len() == (so_far + entries).len());
        offsets.push(keys.len() as i32);
    }
    assert(rows@.take(rows@.len() as int) =~= rows@);
    SummaryColumns { keys, values, offsets }
}

/// A row of the table of references.
#[derive(Debug)]
pub struct RefRow {
    pub name: String,
    pub ref_type: String,
    pub snapshot_id: i64,
    pub max_reference_age_in_ms: Option<i64>,
    pub min_snapshots_to_keep: Option<i32>,
    pub max_snapshot_age_in_ms: Option<i64>,
}

/// Whether a row is that of a reference.
pub open spec fn is_ref_row(row: RefRow, entry: (Seq<char>, SnapshotReference)) -> bool {
    &&& row.name@ == entry.0
    &&& row.ref_type@ == (if entry.1.retention is Branch {
        "branch"@
    } else {
        "tag"@
    })
    &&& row.snapshot_id == entry.1.snapshot_id
    &&& row.max_reference_age_in_ms == entry.1.spec_max_ref_age_ms()
    &&& row.min_snapshots_to_keep == entry.1.spec_min_snapshots_to_keep()
    &&& row.max_snapshot_age_in_ms == entry.1.spec_max_snapshot_age_ms()
}

/// The rows of the table of references.
pub fn refs_rows(metadata: &TableMetadata) -> (rows: Vec<RefRow>)
    ensures
        rows@.len() == metadata.refs@.len(),
        forall|i: int| 0 <= i < rows@.len() ==> is_ref_row(#[trigger] rows@[i], metadata.refs@[i]),
{
    let mut rows: Vec<RefRow> = Vec::new();
    let count: usize = metadata.refs.len();
    for i in 0..count
        invariant
            count == metadata.refs@.len(),
            rows@.len() == i,
            forall|j: int| 0 <= j < i ==> is_ref_row(#[trigger] rows@[j], metadata.refs@[j]),
    {
        let (name, reference) = metadata.refs.entry(i);
        assert(metadata.refs@[i as int] == (name@, *reference));
        let ref_type = if reference.is_branch() {
            "branch".to_owned()
        } else {
            "tag".to_owned()
        };
        rows.push(
            RefRow {
                name: name.clone(),
                ref_type,
                snapshot_id: reference.snapshot_id,
                max_reference_age_in_ms: reference.max_ref_age_ms(),
                min_snapshots_to_keep: reference.min_snapshots_to_keep(),
                max_snapshot_age_in_ms: reference.max_snapshot_age_ms(),
            },
        );
    }
    rows
}

/// The rows of one of the tables.
#[derive(Debug)]
pub enum MetadataTableRows {
    Snapshots { snapshots: Vec<SnapshotRow> },
    Refs { refs: Vec<RefRow> },
}

/// One of the tables.
#[derive(Debug)]
pub struct IcebergMetadataTableProvider {
    metadata: TableMetadata,
    metadata_type: IcebergMetadataTableType,
}

/// The names of the columns of the tables.
pub open spec fn table_columns(metadata_type: IcebergMetadataTableType) -> Seq<Seq<char>> {
    match metadata_type {
        IcebergMetadataTableType::Snapshots => seq![
            "committed_at"@,
            "snapshot_id"@,
            "parent_id"@,
            "operation"@,
            "manifest_list"@,
            "summary"@,
        ],
        IcebergMetadataTableType::Refs => seq![
            "name"@,
            "type"@,
            "snapshot_id"@,
            "max_reference_age_in_ms"@,
            "min_snapshots_to_keep"@,
            "max_snapshot_age_in_ms"@,
        ],
    }
}

impl IcebergMetadataTableProvider {
    pub closed spec fn spec_metadata(self) -> TableMetadata {
        self.metadata
    }

    pub closed spec fn spec_metadata_type(self) -> IcebergMetadataTableType {
        self.metadata_type
    }

    pub fn new(metadata: TableMetadata, metadata_type: IcebergMetadataTableType) -> (provider:
        IcebergMetadataTableProvider)
        ensures
            provider.spec_metadata() == metadata,
            provider.spec_metadata_type() == metadata_type,
    {
        IcebergMetadataTableProvider { metadata, metadata_type }
    }

    /// The names of the columns.
    pub fn schema(&self) -> (names: Vec<String>)
        ensures
            texts(names@) == table_columns(self.spec_metadata_type()),
    {
        let mut names: Vec<String> = Vec::new();
        match self.metadata_type {
            IcebergMetadataTableType::Snapshots => {
                names.push("committed_at".to_owned());
                names.push("snapshot_id".to_owned());
                names.push("parent_id".to_owned());
                names.push("operation".to_owned());
                names.push("manifest_list".to_owned());
                names.push("summary".to_owned());
            },
            IcebergMetadataTableType::Refs => {
                names.push("name".to_owned());
                names.push("type".to_owned());
                names.push("snapshot_id".to_owned());
                names.push("max_reference_age_in_ms".to_owned());
                names.push("min_snapshots_to_keep".to_owned());
                names.push("max_snapshot_age_in_ms".to_owned());
            },
        }
        assert(texts(names@) =~= table_columns(self.spec_metadata_type()));
        names
    }

    /// The rows. There are none to show where the time of a snapshot cannot be told in
    /// microseconds.
    pub fn build_rows(&self) -> (rows: Option<MetadataTableRows>)
        ensures
            match rows {
                None => self.spec_metadata_type() is Snapshots && exists|i: int|
                    0 <= i < self.spec_metadata().snapshots@.len() && !time_fits(
                        #[trigger] self.spec_metadata().snapshots@[i],
                    ),
                Some(MetadataTableRows::Snapshots { snapshots }) => {
                    &&& self.spec_metadata_type() is Snapshots
                    &&& snapshots@.len() == self.spec_metadata().snapshots@.len()
                    &&& forall|i: int|
                        0 <= i < snapshots@.len() ==> is_snapshot_row(
                            #[trigger] snapshots@[i],
                            self.spec_metadata().snapshots@[i],
                        )
                },
                Some(MetadataTableRows::Refs { refs }) => {
                    &&& self.spec_metadata_type() is Refs
                    &&& refs@.len() == self.spec_metadata().refs@.len()
                    &&& forall|i: int|
                        0 <= i < refs@.len() ==> is_ref_row(
                            #[trigger] refs@[i],
                            self.spec_metadata().refs@[i],
                        )
                },
            },
    {
        match self.metadata_type {
            IcebergMetadataTableType::Snapshots => {
                if !check_times(&self.metadata) {
                    return None;
                }
                Some(MetadataTableRows::Snapshots { snapshots: snapshots_rows(&self.metadata) })
            },
            IcebergMetadataTableType::Refs => Some(
                MetadataTableRows::Refs { refs: refs_rows(&self.metadata) },
            ),
        }
    }
}

/// The entries of rows are those of each of them, one row behind the other.
pub proof fn law_entries_of_rows(rows: Seq<SnapshotRow>, row: SnapshotRow)
    ensures
        all_entries(Seq::empty()).len() == 0,
        all_entries(rows.push(row)) == all_entries(rows) + text_pairs(row.summary@),
{
    assert(rows.push(row).drop_last() =~= rows);
}

/// The row of a snapshot tells its time in microseconds, its id and parent, and its operation,
/// which comes first in its summary too, before what the summary holds. It tells a manifest list
/// where the snapshot has one.
pub proof fn law_snapshot_rows(row: SnapshotRow, snapshot: Snapshot, i: int)
    requires
        is_snapshot_row(row, snapshot),
        0 <= i < snapshot.summary.additional_properties@.len(),
    ensures
        row.committed_at == 1000 * snapshot.timestamp_ms,
        row.snapshot_id == snapshot.snapshot_id,
        row.parent_id == snapshot.parent_snapshot_id,
        row.manifest_list is Some <==> snapshot.manifest_list@.len() > 0,
        row.manifest_list is Some ==> row.manifest_list->0@ == snapshot.manifest_list@,
        row.summary@.len() == snapshot.summary.additional_properties@.len() + 1,
        row.summary@[0].0@ == "operation"@ && row.summary@[0].1@ == row.operation@,
        row.summary@[i + 1].0@ == snapshot.summary.additional_properties@[i].0,
        row.summary@[i + 1].1@ == snapshot.summary.additional_properties@[i].1@,
        row.operation@ == (match snapshot.summary.operation {
            Operation::Append => "append"@,
            Operation::Replace => "replace"@,
            Operation::Overwrite => "overwrite"@,
            Operation::Delete => "delete"@,
        }),
{
    let entries = summary_entries(snapshot);
    let properties = snapshot.summary.additional_properties@;
    assert(text_pairs(row.summary@) == entries);
    assert(entries.len() == properties.len() + 1);
    assert(text_pairs(row.summary@).len() == row.summary@.len());
    assert(text_pairs(row.summary@)[0] == entries[0]);
    assert(text_pairs(row.summary@)[i + 1] == entries[i + 1]);
}

/// The row of a reference tells what it points at and how it is retained. A tag has no snapshots
/// of its own to retain.
pub proof fn law_reference_rows(row: RefRow, entry: (Seq<char>, SnapshotReference))
    requires
        is_ref_row(row, entry),
    ensures
        row.name@ == entry.0,
        row.snapshot_id == entry.1.snapshot_id,
        match entry.1.retention {
            SnapshotRetention::Branch {
                min_snapshots_to_keep,
                max_snapshot_age_ms,
                max_ref_age_ms,
            } => row.ref_type@ == "branch"@ && row.min_snapshots_to_keep == min_snapshots_to_keep
                && row.max_snapshot_age_in_ms == max_snapshot_age_ms
                && row.max_reference_age_in_ms == max_ref_age_ms,
            SnapshotRetention::Tag { max_ref_age_ms } => row.ref_type@ == "tag"@
                && row.min_snapshots_to_keep is None && row.max_snapshot_age_in_ms is None
                && row.max_reference_age_in_ms == max_ref_age_ms,
        },
{
}

/// The entries of the rows follow each other without a gap: those of the first row come first, and
/// those of the last row end where all entries do.
pub proof fn law_entries_follow_each_other(rows: Vec<SnapshotRow>, columns: SummaryColumns, i: int)
    requires
        call_ensures(summary_columns, (&rows,), columns),
        0 <= i < rows@.len(),
    ensures
        columns.offsets@.len() == rows@.len() + 1,
        columns.offsets@[0] == 0,
        columns.offsets@[rows@.len() as int] == columns.keys@.len(),
        columns.keys@.len() == columns.values@.len(),
        columns.offsets@[i + 1] - columns.offsets@[i] == rows@[i].summary@.len(),
{
    let n = rows@.len() as int;
    assert(rows@.take(n) =~= rows@);
    assert(rows@.take(0).len() == 0);
    assert(columns.offsets@[0] == all_entries(rows@.take(0)).len());
    assert(columns.offsets@[n] == all_entries(rows@.take(n)).len());
    assert(texts(columns.keys@).len() == columns.keys@.len());
    assert(texts(columns.values@).len() == columns.values@.len());
    assert(rows@.take(i + 1).drop_last() =~= rows@.take(i));
    assert(columns.offsets@[i] == all_entries(rows@.take(i)).len());
    assert(columns.offsets@[i + 1] == all_entries(rows@.take(i + 1)).len());
}

/// A table of metadata has a row for each snapshot, or for each reference, in their order.
pub proof fn law_tables_have_all_rows(
    table: IcebergMetadataTableProvider,
    rows: Option<MetadataTableRows>,
    i: int,
)
    requires
        call_ensures(IcebergMetadataTableProvider::build_rows, (&table,), rows),
    ensures
        table.spec_metadata_type() is Refs ==> (rows matches Some(MetadataTableRows::Refs { refs })
            && refs@.len() == table.spec_metadata().refs@.len() && (0 <= i < refs@.len()
            ==> refs@[i].name@ == table.spec_metadata().refs@[i].0)),
        table.spec_metadata_type() is Snapshots && rows is Some ==> (
        rows matches Some(MetadataTableRows::Snapshots { snapshots }) && snapshots@.len()
            == table.spec_metadata().snapshots@.len() && (0 <= i < snapshots@.len()
            ==> snapshots@[i].snapshot_id == table.spec_metadata().snapshots@[i].snapshot_id)),
{
    match rows {
        Some(MetadataTableRows::Refs { refs }) => {
            if 0 <= i < refs@.len() {
                assert(is_ref_row(refs@[i], table.spec_metadata().refs@[i]));
            }
        },
        Some(MetadataTableRows::Snapshots { snapshots }) => {
            if 0 <= i < snapshots@.len() {
                assert(is_snapshot_row(snapshots@[i], table.spec_metadata().snapshots@[i]));
            }
        },
        None => {},
    }
}

} // verus!

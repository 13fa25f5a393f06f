//! The data file for a Parquet file that was written.

use vstd::prelude::*;
use vstd::string::*;

use crate::affix::find_last_char;
use crate::iceberg::table::{DataContentType, DataFile, DataFileFormat, SchemaField};
use crate::string_map::StringMap;

verus! {

use crate::affix::{last_position, law_positions};
use crate::assoc::{distinct_keys, has_key, key_index, lemma_key_index, lemma_stored, stored, value_of};

/// A column of a row group.
#[derive(Debug)]
pub struct ColumnChunk {
    /// The names that lead to the column, with dots between them.
    pub path: String,
    /// The field id of the column itself.
    pub leaf_id: Option<i32>,
    /// The field id of the top-level column that it is part of.
    pub root_id: Option<i32>,
    pub compressed_size: u64,
    pub num_values: u64,
    pub null_count: Option<u64>,
}

/// A row group of a Parquet file.
#[derive(Debug)]
pub struct RowGroup {
    pub file_offset: Option<i64>,
    pub columns: Vec<ColumnChunk>,
}

/// The columns of all row groups, in order.
pub open spec fn all_chunks(groups: Seq<RowGroup>) -> Seq<ColumnChunk>
    decreases groups.len(),
{
    if groups.len() == 0 {
        Seq::empty()
    } else {
        all_chunks(groups.drop_last()) + groups.last().columns@
    }
}

/// Where the row groups begin, as far as it is known.
pub open spec fn offsets(groups: Seq<RowGroup>) -> Seq<i64>
    decreases groups.len(),
{
    if groups.len() == 0 {
        Seq::empty()
    } else {
        match groups.last().file_offset {
            Some(offset) => offsets(groups.drop_last()).push(offset),
            None => offsets(groups.drop_last()),
        }
    }
}

/// The field that a column stands for: its own id, or else that of its top-level column.
pub open spec fn own_field() -> spec_fn(ColumnChunk) -> Option<i32> {
    |chunk: ColumnChunk|
        match chunk.leaf_id {
            Some(id) => Some(id),
            None => chunk.root_id,
        }
}

/// The last of the names that lead to a column.
pub open spec fn column_name(path: Seq<char>) -> Seq<char> {
    match last_position(path, '.') {
        Some(dot) => path.skip(dot + 1),
        None => path,
    }
}

/// The field that a column stands for by its name.
pub open spec fn named_field(fields: Seq<(Seq<char>, i32)>) -> spec_fn(ColumnChunk) -> Option<i32> {
    |chunk: ColumnChunk| value_of(fields, column_name(chunk.path@))
}

/// What is counted of a column.
#[derive(Debug, Clone, Copy, PartialEq, Eq, Structural)]
pub enum Measure {
    Size,
    Values,
    Nulls,
}

/// A count of a column, where it is known.
pub open spec fn measured(chunk: ColumnChunk, measure: Measure) -> Option<u64> {
    match measure {
        Measure::Size => Some(chunk.compressed_size),
        Measure::Values => Some(chunk.num_values),
        Measure::Nulls => chunk.null_count,
    }
}

/// A count of each of several columns, by field. Columns that stand for no field, or whose
/// count is not known, are passed over.
pub open spec fn counts(
    chunks: Seq<ColumnChunk>,
    field: spec_fn(ColumnChunk) -> Option<i32>,
    measure: Measure,
) -> Seq<(i32, u64)>
    decreases chunks.len(),
{
    if chunks.len() == 0 {
        Seq::empty()
    } else {
        let before = counts(chunks.drop_last(), field, measure);
        match (field(chunks.last()), measured(chunks.last(), measure)) {
            (Some(id), Some(count)) => before.push((id, count)),
            _ => before,
        }
    }
}

/// The sum of the counts of a field.
pub open spec fn field_sum(entries: Seq<(i32, u64)>, id: i32) -> int
    decreases entries.len(),
{
    if entries.len() == 0 {
        0
    } else {
        field_sum(entries.drop_last(), id) + (if entries.last().0 == id {
            entries.last().1 as int
        } else {
            0
        })
    }
}

/// Whether totals are those of the given counts: every field that is counted is there once,
/// with the sum of its counts.
pub open spec fn are_totals(totals: Seq<(i32, u64)>, entries: Seq<(i32, u64)>) -> bool {
    &&& distinct_keys(totals)
    &&& forall|id: i32| has_key(totals, id) <==> #[trigger] has_key(entries, id)
    &&& forall|id: i32| #[trigger]
        has_key(totals, id) ==> (value_of(totals, id) matches Some(sum) && sum == field_sum(
            entries,
            id,
        ))
}

/// Whether the sum of the counts of some field does not fit.
pub open spec fn sum_overflows(entries: Seq<(i32, u64)>) -> bool {
    exists|id: i32| #[trigger] field_sum(entries, id) > u64::MAX
}

/// The sum of the counts of a field does not fit.
#[derive(Debug, Clone, Copy, PartialEq, Eq, Structural)]
pub struct SumOverflow;

proof fn lemma_sum_grows(entries: Seq<(i32, u64)>, n: int, id: i32)
    requires
        0 <= n <= entries.len(),
    ensures
        field_sum(entries.take(n), id) <= field_sum(entries, id),
    decreases entries.len() - n,
{
    if n < entries.len() {
        lemma_sum_grows(entries, n + 1, id);
        assert(entries.take(n + 1).drop_last() =~= entries.take(n));
    } else {
        assert(entries.take(n) =~= entries);
    }
}

/// A field that is not counted has no sum.
proof fn lemma_no_sum(entries: Seq<(i32, u64)>, id: i32)
    requires
        !has_key(entries, id),
    ensures
        field_sum(entries, id) == 0,
    decreases entries.len(),
{
    if entries.len() > 0 {
        let init = entries.drop_last();
        assert(entries[entries.len() - 1].0 != id);
        assert forall|i: int| 0 <= i < init.len() implies (#[trigger] init[i]).0 != id by {
            assert(entries[i].0 != id);
        }
        lemma_no_sum(init, id);
    }
}

proof fn lemma_totals_step(
    totals: Seq<(i32, u64)>,
    entries: Seq<(i32, u64)>,
    entry: (i32, u64),
    sum: u64,
)
    requires
        are_totals(totals, entries),
        sum == field_sum(entries, entry.0) + entry.1,
    ensures
        are_totals(stored(totals, entry.0, sum), entries.push(entry)),
{
    let longer = entries.push(entry);
    let next = stored(totals, entry.0, sum);
    lemma_stored(totals, entry.0, sum);
    assert(longer.drop_last() =~= entries);
    assert forall|id: i32| has_key(next, id) <==> #[trigger] has_key(longer, id) by {
        if has_key(longer, id) {
            let i = key_index(longer, id);
            if i < entries.len() {
                assert(entries[i].0 == id);
            }
        }
        if has_key(entries, id) {
            let i = key_index(entries, id);
            assert(longer[i].0 == id);
        }
        assert(longer[entries.len() as int].0 == entry.0);
    }
    assert forall|id: i32| #[trigger] has_key(next, id) implies (value_of(next, id) matches Some(
        value,
    ) && value == field_sum(longer, id)) by {
        if id != entry.0 {
            assert(has_key(totals, id));
            assert(value_of(next, id) == value_of(totals, id));
        }
    }
}

/// The totals of counts, by field, in the order of the first counts.
pub fn totals_by_field(entries: &Vec<(i32, u64)>) -> (totals: Result<Vec<(i32, u64)>, SumOverflow>)
    ensures
        match totals {
            Ok(t) => are_totals(t@, entries@),
            Err(_) => sum_overflows(entries@),
        },
{
    let mut totals: Vec<(i32, u64)> = Vec::new();
    for i in 0..entries.len()
        invariant
            are_totals(totals@, entries@.take(i as int)),
    {
        let ghost before = entries@.take(i as int);
        let ghost so_far = totals@;
        let (id, count) = entries[i];
        proof {
            assert(entries@.take(i + 1) =~= before.push((id, count)));
            assert(before.push((id, count)).drop_last() =~= before);
            lemma_sum_grows(entries@, i + 1, id);
        }
        let len: usize = totals.len();
        let mut at: usize = 0;
        while at < len && totals[at].0 != id
            invariant
                len == totals@.len(),
                at <= len,
                forall|j: int| 0 <= j < at ==> (#[trigger] totals@[j]).0 != id,
            decreases len - at,
        {
            at = at + 1;
        }
        if at < len {
            proof {
                lemma_key_index(totals@, at as int);
                assert(has_key(totals@, id));
            }
            match totals[at].1.checked_add(count) {
                Some(sum) => {
                    totals.set(at, (id, sum));
                    proof {
                        lemma_totals_step(so_far, before, (id, count), sum);
                        assert(totals@ =~= stored(so_far, id, sum));
                    }
                },
                None => {
                    assert(field_sum(entries@, id) > u64::MAX);
                    return Err(SumOverflow);
                },
            }
        } else {
            proof {
                assert(!has_key(so_far, id));
                assert(!has_key(before, id));
                lemma_no_sum(before, id);
                lemma_totals_step(so_far, before, (id, count), count);
            }
            totals.push((id, count));
            assert(totals@ =~= stored(so_far, id, count));
        }
    }
    assert(entries@.take(entries@.len() as int) =~= entries@);
    Ok(totals)
}

/// What is known of a Parquet file, by field.
#[derive(Debug)]
pub struct AggregatedMetadata {
    pub column_sizes: Vec<(i32, u64)>,
    pub value_counts: Vec<(i32, u64)>,
    pub null_value_counts: Vec<(i32, u64)>,
    pub split_offsets: Vec<i64>,
}

/// Whether what is known of a Parquet file is what its row groups say.
pub open spec fn aggregates(
    metadata: AggregatedMetadata,
    groups: Seq<RowGroup>,
    field: spec_fn(ColumnChunk) -> Option<i32>,
) -> bool {
    let chunks = all_chunks(groups);
    &&& are_totals(metadata.column_sizes@, counts(chunks, field, Measure::Size))
    &&& are_totals(metadata.value_counts@, counts(chunks, field, Measure::Values))
    &&& are_totals(metadata.null_value_counts@, counts(chunks, field, Measure::Nulls))
    &&& metadata.split_offsets@ == offsets(groups)
}

/// Whether some sum over row groups does not fit.
pub open spec fn aggregate_overflows(
    groups: Seq<RowGroup>,
    field: spec_fn(ColumnChunk) -> Option<i32>,
) -> bool {
    let chunks = all_chunks(groups);
    sum_overflows(counts(chunks, field, Measure::Size)) || sum_overflows(
        counts(chunks, field, Measure::Values),
    ) || sum_overflows(counts(chunks, field, Measure::Nulls))
}

/// The counts of columns so far.
struct Tally {
    sizes: Vec<(i32, u64)>,
    values: Vec<(i32, u64)>,
    nulls: Vec<(i32, u64)>,
}

impl Tally {
    spec fn is_of(self, chunks: Seq<ColumnChunk>, field: spec_fn(ColumnChunk) -> Option<i32>) -> bool {
        &&& self.sizes@ == counts(chunks, field, Measure::Size)
        &&& self.values@ == counts(chunks, field, Measure::Values)
        &&& self.nulls@ == counts(chunks, field, Measure::Nulls)
    }

    fn new() -> (tally: Tally)
        ensures
            forall|field: spec_fn(ColumnChunk) -> Option<i32>| #[trigger]
                tally.is_of(Seq::empty(), field),
    {
        let tally = Tally { sizes: Vec::new(), values: Vec::new(), nulls: Vec::new() };
        assert forall|field: spec_fn(ColumnChunk) -> Option<i32>| #[trigger]
            tally.is_of(Seq::empty(), field) by {
            assert(tally.sizes@ =~= counts(Seq::empty(), field, Measure::Size));
            assert(tally.values@ =~= counts(Seq::empty(), field, Measure::Values));
            assert(tally.nulls@ =~= counts(Seq::empty(), field, Measure::Nulls));
        }
        tally
    }

    fn count(
        &mut self,
        chunk: &ColumnChunk,
        id: Option<i32>,
        Ghost(chunks): Ghost<Seq<ColumnChunk>>,
        Ghost(field): Ghost<spec_fn(ColumnChunk) -> Option<i32>>,
    )
        requires
            old(self).is_of(chunks, field),
            field(*chunk) == id,
        ensures
            final(self).is_of(chunks.push(*chunk), field),
    {
        proof {
            assert(chunks.push(*chunk).drop_last() =~= chunks);
        }
        match id {
            Some(id) => {
                self.sizes.push((id, chunk.compressed_size));
                self.values.push((id, chunk.num_values));
                match chunk.null_count {
                    Some(nulls) => {
                        self.nulls.push((id, nulls));
                    },
                    None => {},
                }
            },
            None => {},
        }
    }

    fn finish(
        self,
        split_offsets: Vec<i64>,
        Ghost(groups): Ghost<Seq<RowGroup>>,
        Ghost(field): Ghost<spec_fn(ColumnChunk) -> Option<i32>>,
    ) -> (metadata: Result<AggregatedMetadata, SumOverflow>)
        requires
            self.is_of(all_chunks(groups), field),
            split_offsets@ == offsets(groups),
        ensures
            match metadata {
                Ok(m) => aggregates(m, groups, field),
                Err(_) => aggregate_overflows(groups, field),
            },
    {
        let column_sizes = match totals_by_field(&self.sizes) {
            Ok(totals) => totals,
            Err(e) => {
                return Err(e);
            },
        };
        let value_counts = match totals_by_field(&self.values) {
            Ok(totals) => totals,
            Err(e) => {
                return Err(e);
            },
        };
        let null_value_counts = match totals_by_field(&self.nulls) {
            Ok(totals) => totals,
            Err(e) => {
                return Err(e);
            },
        };
        Ok(AggregatedMetadata { column_sizes, value_counts, null_value_counts, split_offsets })
    }
}

/// What is known of a Parquet file by the field ids in it.
pub fn aggregate_from_parquet_metadata(groups: &Vec<RowGroup>) -> (metadata: Result<
    AggregatedMetadata,
    SumOverflow,
>)
    ensures
        match metadata {
            Ok(m) => aggregates(m, groups@, own_field()),
            Err(_) => aggregate_overflows(groups@, own_field()),
        },
{
    let mut tally = Tally::new();
    let mut split_offsets: Vec<i64> = Vec::new();
    proof {
        assert(groups@.take(0) =~= Seq::<RowGroup>::empty());
        assert(all_chunks(groups@.take(0)) =~= Seq::<ColumnChunk>::empty());
        assert(split_offsets@ =~= offsets(groups@.take(0)));
    }
    for g in 0..groups.len()
        invariant
            tally.is_of(all_chunks(groups@.take(g as int)), own_field()),
            split_offsets@ == offsets(groups@.take(g as int)),
    {
        let group = &groups[g];
        let ghost before = all_chunks(groups@.take(g as int));
        let ghost columns = group.columns@;
        proof {
            assert(groups@.take(g + 1).drop_last() =~= groups@.take(g as int));
            assert(before + columns.take(0) =~= before);
        }
        match group.file_offset {
            Some(offset) => {
                split_offsets.push(offset);
            },
            None => {},
        }
        for c in 0..group.columns.len()
            invariant
                columns == group.columns@,
                tally.is_of(before + columns.take(c as int), own_field()),
        {
            let chunk = &group.columns[c];
            let id = match chunk.leaf_id {
                Some(id) => Some(id),
                None => chunk.root_id,
            };
            tally.count(chunk, id, Ghost(before + columns.take(c as int)), Ghost(own_field()));
            assert(before + columns.take(c + 1) =~= (before + columns.take(c as int)).push(*chunk));
        }
        assert(columns.take(columns.len() as int) =~= columns);
    }
    assert(groups@.take(groups@.len() as int) =~= groups@);
    tally.finish(split_offsets, Ghost(groups@), Ghost(own_field()))
}

/// The field ids of a table by the names of the fields. Where two have the same name, the last
/// counts.
pub open spec fn ids_by_name(fields: Seq<SchemaField>) -> Seq<(Seq<char>, i32)>
    decreases fields.len(),
{
    if fields.len() == 0 {
        Seq::empty()
    } else {
        stored(ids_by_name(fields.drop_last()), fields.last().name@, fields.last().id)
    }
}

/// The field ids of a table by the names of the fields.
pub fn field_id_map(fields: &Vec<SchemaField>) -> (ids: StringMap<i32>)
    ensures
        ids@ == ids_by_name(fields@),
{
    let mut ids: StringMap<i32> = StringMap::new();
    assert(ids@ =~= ids_by_name(fields@.take(0)));
    for i in 0..fields.len()
        invariant
            ids@ == ids_by_name(fields@.take(i as int)),
    {
        assert(fields@.take(i + 1).drop_last() =~= fields@.take(i as int));
        ids.insert(fields[i].name.clone(), fields[i].id);
    }
    assert(fields@.take(fields@.len() as int) =~= fields@);
    ids
}

/// The last of the names that lead to a column.
fn last_name(path: &str) -> (name: String)
    ensures
        name@ == column_name(path@),
{
    let len: usize = path.unicode_len();
    assert(path@.take(len as int) =~= path@);
    match find_last_char(path, len, '.') {
        Some(dot) => {
            let name = path.substring_char(dot + 1, len).to_owned();
            assert(name@ =~= path@.skip(dot + 1));
            name
        },
        None => path.to_owned(),
    }
}

/// What is known of a Parquet file by the names of its columns: counts are those of the field
/// ids of the table, and columns that the table does not have are passed over.
///
/// External parquet files carry no Iceberg field IDs, so this is required when registering
/// externally-produced parquet files via the `LOAD DATA` fast path.
pub fn aggregate_from_parquet_metadata_with_field_map(
    groups: &Vec<RowGroup>,
    field_id_map: &StringMap<i32>,
) -> (metadata: Result<AggregatedMetadata, SumOverflow>)
    ensures
        match metadata {
            Ok(m) => aggregates(m, groups@, named_field(field_id_map@)),
            Err(_) => aggregate_overflows(groups@, named_field(field_id_map@)),
        },
{
    let ghost field = named_field(field_id_map@);
    let mut tally = Tally::new();
    let mut split_offsets: Vec<i64> = Vec::new();
    proof {
        assert(groups@.take(0) =~= Seq::<RowGroup>::empty());
        assert(all_chunks(groups@.take(0)) =~= Seq::<ColumnChunk>::empty());
        assert(split_offsets@ =~= offsets(groups@.take(0)));
    }
    for g in 0..groups.len()
        invariant
            field == named_field(field_id_map@),
            tally.is_of(all_chunks(groups@.take(g as int)), field),
            split_offsets@ == offsets(groups@.take(g as int)),
    {
        let group = &groups[g];
        let ghost before = all_chunks(groups@.take(g as int));
        let ghost columns = group.columns@;
        proof {
            assert(groups@.take(g + 1).drop_last() =~= groups@.take(g as int));
            assert(before + columns.take(0) =~= before);
        }
        match group.file_offset {
            Some(offset) => {
                split_offsets.push(offset);
            },
            None => {},
        }
        for c in 0..group.columns.len()
            invariant
                field == named_field(field_id_map@),
                columns == group.columns@,
                tally.is_of(before + columns.take(c as int), field),
        {
            let chunk = &group.columns[c];
            let name = last_name(chunk.path.as_str());
            let id = match field_id_map.get(name.as_str()) {
                Some(id) => Some(*id),
                None => None,
            };
            tally.count(chunk, id, Ghost(before + columns.take(c as int)), Ghost(field));
            assert(before + columns.take(c + 1) =~= (before + columns.take(c as int)).push(*chunk));
        }
        assert(columns.take(columns.len() as int) =~= columns);
    }
    assert(groups@.take(groups@.len() as int) =~= groups@);
    tally.finish(split_offsets, Ghost(groups@), Ghost(field))
}

/// A Parquet file that was written.
#[derive(Debug)]
pub struct ParquetFileMeta {
    pub num_rows: u64,
    pub file_size: u64,
    pub row_groups: Vec<RowGroup>,
}

/// A data file that was written.
#[derive(Debug)]
pub struct WriteOutcome {
    pub data_file: DataFile,
}

/// Describes a file that was written for a partition.
#[derive(Debug)]
pub struct DataFileWriter {
    pub partition_spec_id: i32,
    pub file_path: String,
    pub partition_values: Vec<String>,
}

impl DataFileWriter {
    pub fn new(partition_spec_id: i32, file_path: String, partition_values: Vec<String>) -> (writer:
        DataFileWriter)
        ensures
            writer.partition_spec_id == partition_spec_id,
            writer.file_path == file_path,
            writer.partition_values == partition_values,
    {
        DataFileWriter { partition_spec_id, file_path, partition_values }
    }

    /// The data file. Its counts are those of the row groups; no bounds are known.
    pub fn finish(self, meta: ParquetFileMeta) -> (outcome: Result<WriteOutcome, SumOverflow>)
        ensures
            match outcome {
                Ok(o) => {
                    let file = o.data_file;
                    &&& file.content is Data
                    &&& file.file_path == self.file_path
                    &&& file.file_format is Parquet
                    &&& file.partition == self.partition_values
                    &&& file.record_count == meta.num_rows
                    &&& file.file_size_in_bytes == meta.file_size
                    &&& aggregates(
                        (AggregatedMetadata {
                            column_sizes: file.column_sizes,
                            value_counts: file.value_counts,
                            null_value_counts: file.null_value_counts,
                            split_offsets: file.split_offsets,
                        }),
                        meta.row_groups@,
                        own_field(),
                    )
                    &&& file.nan_value_counts@.len() == 0
                    &&& file.lower_bounds@.len() == 0
                    &&& file.upper_bounds@.len() == 0
                    &&& file.block_size_in_bytes is None
                    &&& file.key_metadata is None
                    &&& file.equality_ids@.len() == 0
                    &&& file.sort_order_id is None
                    &&& file.first_row_id is None
                    &&& file.partition_spec_id == self.partition_spec_id
                    &&& file.referenced_data_file is None
                    &&& file.content_offset is None
                    &&& file.content_size_in_bytes is None
                },
                Err(_) => aggregate_overflows(meta.row_groups@, own_field()),
            },
    {
        let metadata = match aggregate_from_parquet_metadata(&meta.row_groups) {
            Ok(metadata) => metadata,
            Err(e) => {
                return Err(e);
            },
        };
        let data_file = DataFile {
            content: DataContentType::Data,
            file_path: self.file_path,
            file_format: DataFileFormat::Parquet,
            partition: self.partition_values,
            record_count: meta.num_rows,
            file_size_in_bytes: meta.file_size,
            column_sizes: metadata.column_sizes,
            value_counts: metadata.value_counts,
            null_value_counts: metadata.null_value_counts,
            nan_value_counts: Vec::new(),
            lower_bounds: Vec::new(),
            upper_bounds: Vec::new(),
            block_size_in_bytes: None,
            key_metadata: None,
            split_offsets: metadata.split_offsets,
            equality_ids: Vec::new(),
            sort_order_id: None,
            first_row_id: None,
            partition_spec_id: self.partition_spec_id,
            referenced_data_file: None,
            content_offset: None,
            content_size_in_bytes: None,
        };
        Ok(WriteOutcome { data_file })
    }
}

/// The columns of row groups are those of each of them, one group behind the other; and the
/// places where groups begin are those that are known, in the same order.
pub proof fn law_row_groups_follow_each_other(groups: Seq<RowGroup>, group: RowGroup)
    ensures
        all_chunks(Seq::empty()) == Seq::<ColumnChunk>::empty(),
        all_chunks(groups.push(group)) == all_chunks(groups) + group.columns@,
        offsets(Seq::empty()) == Seq::<i64>::empty(),
        group.file_offset matches Some(offset) ==> offsets(groups.push(group)) == offsets(groups)
            + seq![offset],
        group.file_offset is None ==> offsets(groups.push(group)) == offsets(groups),
{
    assert(groups.push(group).drop_last() =~= groups);
    if group.file_offset is Some {
        let offset = group.file_offset->0;
        assert(offsets(groups).push(offset) =~= offsets(groups) + seq![offset]);
    }
}

/// A column adds its size and its values to those of its field, and its nulls where they are
/// known. A column without a field adds nothing.
pub proof fn law_columns_count_for_their_fields(
    chunks: Seq<ColumnChunk>,
    chunk: ColumnChunk,
    field: spec_fn(ColumnChunk) -> Option<i32>,
    id: i32,
)
    ensures
        ({
            let more = chunks.push(chunk);
            let counted = field(chunk) == Some(id);
            &&& field_sum(counts(more, field, Measure::Size), id) == field_sum(
                counts(chunks, field, Measure::Size),
                id,
            ) + (if counted {
                chunk.compressed_size as int
            } else {
                0
            })
            &&& field_sum(counts(more, field, Measure::Values), id) == field_sum(
                counts(chunks, field, Measure::Values),
                id,
            ) + (if counted {
                chunk.num_values as int
            } else {
                0
            })
            &&& field_sum(counts(more, field, Measure::Nulls), id) == field_sum(
                counts(chunks, field, Measure::Nulls),
                id,
            ) + (if counted && chunk.null_count is Some {
                chunk.null_count->0 as int
            } else {
                0
            })
        }),
        forall|measure: Measure| #[trigger]
            field_sum(counts(Seq::empty(), field, measure), id) == 0,
{
    let more = chunks.push(chunk);
    assert(more.drop_last() =~= chunks);
    if field(chunk) is Some {
        let own = field(chunk)->0;
        let sizes = counts(chunks, field, Measure::Size);
        assert(sizes.push((own, chunk.compressed_size)).drop_last() =~= sizes);
        let values = counts(chunks, field, Measure::Values);
        assert(values.push((own, chunk.num_values)).drop_last() =~= values);
        let nulls = counts(chunks, field, Measure::Nulls);
        if chunk.null_count is Some {
            assert(nulls.push((own, chunk.null_count->0)).drop_last() =~= nulls);
        }
    }
    assert forall|measure: Measure| #[trigger]
        field_sum(counts(Seq::empty(), field, measure), id) == 0 by {
        assert(counts(Seq::empty(), field, measure).len() == 0);
    }
}

/// A field is counted exactly where some column stands for it.
pub proof fn law_counted_fields(
    chunks: Seq<ColumnChunk>,
    field: spec_fn(ColumnChunk) -> Option<i32>,
    id: i32,
)
    ensures
        has_key(counts(chunks, field, Measure::Size), id) <==> exists|i: int|
            0 <= i < chunks.len() && field(#[trigger] chunks[i]) == Some(id),
        has_key(counts(chunks, field, Measure::Values), id) <==> exists|i: int|
            0 <= i < chunks.len() && field(#[trigger] chunks[i]) == Some(id),
        has_key(counts(chunks, field, Measure::Nulls), id) <==> exists|i: int|
            0 <= i < chunks.len() && field(#[trigger] chunks[i]) == Some(id)
                && chunks[i].null_count is Some,
{
    lemma_counted(chunks, field, Measure::Size, id);
    lemma_counted(chunks, field, Measure::Values, id);
    lemma_counted(chunks, field, Measure::Nulls, id);
    if has_key(counts(chunks, field, Measure::Nulls), id) {
        let i = choose|i: int|
            0 <= i < chunks.len() && field(#[trigger] chunks[i]) == Some(id) && measured(
                chunks[i],
                Measure::Nulls,
            ) is Some;
        assert(chunks[i].null_count is Some);
    }
    if exists|i: int|
        0 <= i < chunks.len() && field(#[trigger] chunks[i]) == Some(id)
            && chunks[i].null_count is Some {
        let i = choose|i: int|
            0 <= i < chunks.len() && field(#[trigger] chunks[i]) == Some(id)
                && chunks[i].null_count is Some;
        assert(measured(chunks[i], Measure::Nulls) is Some);
    }
}

proof fn lemma_counted(
    chunks: Seq<ColumnChunk>,
    field: spec_fn(ColumnChunk) -> Option<i32>,
    measure: Measure,
    id: i32,
)
    ensures
        has_key(counts(chunks, field, measure), id) <==> exists|i: int|
            0 <= i < chunks.len() && field(#[trigger] chunks[i]) == Some(id) && measured(
                chunks[i],
                measure,
            ) is Some,
    decreases chunks.len(),
{
    if chunks.len() > 0 {
        let init = chunks.drop_last();
        let last = chunks.len() - 1;
        lemma_counted(init, field, measure, id);
        let before = counts(init, field, measure);
        let after = counts(chunks, field, measure);
        if has_key(before, id) {
            let k = choose|k: int| 0 <= k < before.len() && (#[trigger] before[k]).0 == id;
            assert(after[k].0 == id);
            let i = choose|i: int|
                0 <= i < init.len() && field(#[trigger] init[i]) == Some(id) && measured(
                    init[i],
                    measure,
                ) is Some;
            assert(chunks[i] == init[i]);
        }
        if has_key(after, id) {
            let k = choose|k: int| 0 <= k < after.len() && (#[trigger] after[k]).0 == id;
            if k < before.len() {
                assert(before[k].0 == id);
            } else {
                assert(field(chunks[last]) == Some(id));
            }
        }
        if exists|i: int|
            0 <= i < chunks.len() && field(#[trigger] chunks[i]) == Some(id) && measured(
                chunks[i],
                measure,
            ) is Some {
            let i = choose|i: int|
                0 <= i < chunks.len() && field(#[trigger] chunks[i]) == Some(id) && measured(
                    chunks[i],
                    measure,
                ) is Some;
            if i < last {
                assert(init[i] == chunks[i]);
            } else {
                assert(after[before.len() as int].0 == id);
            }
        }
    }
}

/// A column stands for the field of its own id, or else for that of its top-level column; by name
/// it stands for the field with the last of the names that lead to it.
pub proof fn law_fields_of_columns(
    chunk: ColumnChunk,
    fields: Seq<(Seq<char>, i32)>,
    parents: Seq<char>,
    name: Seq<char>,
)
    ensures
        chunk.leaf_id is Some ==> own_field()(chunk) == chunk.leaf_id,
        chunk.leaf_id is None ==> own_field()(chunk) == chunk.root_id,
        !name.contains('.') ==> column_name(name) == name,
        !name.contains('.') ==> column_name(parents + "."@ + name) == name,
        chunk.path@ == name && !name.contains('.') ==> named_field(fields)(chunk) == value_of(
            fields,
            name,
        ),
{
    reveal_strlit(".");
    law_positions(name, '.');
    let path = parents + "."@ + name;
    law_positions(path, '.');
    if !name.contains('.') {
        assert(path[parents.len() as int] == '.');
        assert(path.contains('.'));
        let dot = last_position(path, '.')->0;
        assert(dot == parents.len()) by {
            if dot < parents.len() {
                assert(path[parents.len() as int] != '.');
            }
            if dot > parents.len() {
                assert(name[dot - parents.len() - 1] == path[dot]);
            }
        }
        assert(path.skip(dot + 1) =~= name);
        if last_position(name, '.') is Some {
            let at = last_position(name, '.')->0;
            assert(name[at] == '.');
        }
    }
}

/// The field id of a name is that of the last field with the name.
pub proof fn law_ids_by_name(fields: Seq<SchemaField>, name: Seq<char>)
    ensures
        distinct_keys(ids_by_name(fields)),
        match value_of(ids_by_name(fields), name) {
            Some(id) => exists|i: int|
                0 <= i < fields.len() && (#[trigger] fields[i]).name@ == name && fields[i].id == id
                    && forall|j: int|
                    i < j < fields.len() ==> (#[trigger] fields[j]).name@ != name,
            None => forall|i: int| 0 <= i < fields.len() ==> (#[trigger] fields[i]).name@ != name,
        },
    decreases fields.len(),
{
    if fields.len() > 0 {
        let init = fields.drop_last();
        let last = fields.len() - 1;
        law_ids_by_name(init, name);
        lemma_stored(ids_by_name(init), fields.last().name@, fields.last().id);
        if fields.last().name@ == name {
            assert(fields[last].name@ == name);
        } else {
            assert(value_of(ids_by_name(fields), name) == value_of(ids_by_name(init), name));
            match value_of(ids_by_name(init), name) {
                Some(id) => {
                    let i = choose|i: int|
                        0 <= i < init.len() && (#[trigger] init[i]).name@ == name && init[i].id == id
                            && forall|j: int|
                            i < j < init.len() ==> (#[trigger] init[j]).name@ != name;
                    assert(fields[i] == init[i]);
                    assert forall|j: int| i < j < fields.len() implies (
                    #[trigger] fields[j]).name@ != name by {
                        if j < last {
                            assert(init[j] == fields[j]);
                        }
                    }
                },
                None => {
                    assert forall|j: int| 0 <= j < fields.len() implies (
                    #[trigger] fields[j]).name@ != name by {
                        if j < last {
                            assert(init[j] == fields[j]);
                        }
                    }
                },
            }
        }
    }
}

} // verus!

//! The data files of a snapshot, and those that take their place.

use vstd::prelude::*;
use vstd::string::*;

use crate::iceberg::contents::duplicate_texts;
use crate::iceberg::identifiers::{random_uuid, uuid_text};
use crate::iceberg::manifest::{ManifestEntry, ManifestStatus};
use crate::iceberg::table::{DataContentType, DataFile, DataFileFormat};

verus! {

use crate::iceberg::identifiers::{is_random_uuid, uuid_display};

/// Whether an entry of a manifest stands for a file that is still part of the table.
pub open spec fn is_live() -> spec_fn(ManifestEntry) -> bool {
    |entry: ManifestEntry| entry.status != ManifestStatus::Deleted
}

/// The file of an entry.
pub open spec fn entry_file() -> spec_fn(ManifestEntry) -> DataFile {
    |entry: ManifestEntry| entry.data_file
}

/// The files of the entries that are still part of the table, in order.
pub fn live_files(entries: Vec<ManifestEntry>) -> (files: Vec<DataFile>)
    ensures
        files@ == entries@.filter(is_live()).map_values(entry_file()),
{
    let ghost all = entries@;
    let mut files: Vec<DataFile> = Vec::new();
    for entry in iter: entries
        invariant
            iter.seq() == all,
            files@ == all.take(iter.index()).filter(is_live()).map_values(entry_file()),
    {
        let ghost n = iter.index();
        proof {
            reveal(Seq::filter);
            assert(all.take(n + 1).drop_last() =~= all.take(n));
            assert(all.take(n + 1).last() == entry);
        }
        let ghost before = all.take(n).filter(is_live());
        if !matches!(entry.status, ManifestStatus::Deleted) {
            assert(before.push(entry).map_values(entry_file()) =~= before.map_values(
                entry_file(),
            ).push(entry.data_file));
            files.push(entry.data_file);
        }
    }
    assert(all.take(all.len() as int) =~= all);
    files
}

/// The files whose flag is the given one, in order.
pub open spec fn flagged(files: Seq<DataFile>, flags: Seq<bool>, wanted: bool) -> Seq<DataFile>
    recommends
        files.len() == flags.len(),
    decreases files.len(),
{
    if files.len() == 0 {
        Seq::empty()
    } else {
        let before = flagged(files.drop_last(), flags.drop_last(), wanted);
        if flags.last() == wanted {
            before.push(files.last())
        } else {
            before
        }
    }
}

/// The files to keep and those to rewrite.
#[derive(Debug)]
pub struct FileSplit {
    pub kept: Vec<DataFile>,
    pub rewritten: Vec<DataFile>,
}

/// Splits files by whether some of their rows might match a condition: those are rewritten.
pub fn split_by_match(files: Vec<DataFile>, might_match: &Vec<bool>) -> (split: FileSplit)
    requires
        files@.len() == might_match@.len(),
    ensures
        split.kept@ == flagged(files@, might_match@, false),
        split.rewritten@ == flagged(files@, might_match@, true),
{
    let ghost all = files@;
    let ghost flags = might_match@;
    let mut kept: Vec<DataFile> = Vec::new();
    let mut rewritten: Vec<DataFile> = Vec::new();
    let count: usize = might_match.len();
    let mut i: usize = 0;
    for file in iter: files
        invariant
            iter.seq() == all,
            i == iter.index(),
            count == flags.len(),
            flags == might_match@,
            all.len() == flags.len(),
            kept@ == flagged(all.take(i as int), flags.take(i as int), false),
            rewritten@ == flagged(all.take(i as int), flags.take(i as int), true),
    {
        proof {
            assert(all.take(i + 1).drop_last() =~= all.take(i as int));
            assert(flags.take(i + 1).drop_last() =~= flags.take(i as int));
            assert(all.take(i + 1).last() == file);
        }
        if might_match[i] {
            rewritten.push(file);
        } else {
            kept.push(file);
        }
        i = i + 1;
    }
    assert(all.take(all.len() as int) =~= all);
    assert(flags.take(flags.len() as int) =~= flags);
    FileSplit { kept, rewritten }
}

/// The files that a delete keeps and those that it rewrites, given for each file whether some of
/// its rows might match the condition. Without a condition all rows go: no file is kept, and
/// none is rewritten.
pub open spec fn delete_split(files: Seq<DataFile>, might_match: Option<Seq<bool>>) -> (
    Seq<DataFile>,
    Seq<DataFile>,
) {
    match might_match {
        Some(flags) => (flagged(files, flags, false), flagged(files, flags, true)),
        None => (Seq::empty(), Seq::empty()),
    }
}

/// What a delete does with the files of a table, given for each file whether some of its rows
/// might match the condition. Without a condition all files go.
pub fn delete_work(files: Vec<DataFile>, might_match: Option<&Vec<bool>>) -> (split: FileSplit)
    requires
        might_match matches Some(flags) ==> files@.len() == flags@.len(),
    ensures
        (split.kept@, split.rewritten@) == delete_split(
            files@,
            match might_match {
                Some(flags) => Some(flags@),
                None => None,
            },
        ),
{
    match might_match {
        Some(flags) => split_by_match(files, flags),
        None => FileSplit { kept: Vec::new(), rewritten: Vec::new() },
    }
}

/// A delete without a condition leaves no file and reports no rows: there is nothing to rewrite,
/// so nothing is written and nothing is counted.
pub proof fn law_truncation_leaves_nothing(
    files: Seq<DataFile>,
    written: Seq<DataFile>,
    outcomes: Seq<RewriteOutcome>,
)
    requires
        outcomes.len() == delete_split(files, None).1.len(),
        written.len() <= outcomes.len(),
    ensures
        delete_split(files, None).0 + written == Seq::<DataFile>::empty(),
        total_deleted(outcomes) == 0,
{
}

/// Splitting loses no file: every file is kept or rewritten, according to its flag.
pub proof fn law_split_keeps_files(files: Seq<DataFile>, flags: Seq<bool>)
    requires
        files.len() == flags.len(),
    ensures
        flagged(files, flags, false).to_multiset().add(flagged(files, flags, true).to_multiset())
            == files.to_multiset(),
    decreases files.len(),
{
    broadcast use vstd::seq_lib::group_to_multiset_ensures;

    if files.len() > 0 {
        let (init, last) = (files.drop_last(), files.last());
        law_split_keeps_files(init, flags.drop_last());
        assert(files =~= init.push(last));
        let kept = flagged(init, flags.drop_last(), false);
        let rewritten = flagged(init, flags.drop_last(), true);
        assert(init.to_multiset().insert(last) =~= files.to_multiset());
        if flags.last() {
            assert(kept.to_multiset().add(rewritten.push(last).to_multiset()) =~= kept.to_multiset().add(
                rewritten.to_multiset(),
            ).insert(last));
        } else {
            assert(kept.push(last).to_multiset().add(rewritten.to_multiset()) =~= kept.to_multiset().add(
                rewritten.to_multiset(),
            ).insert(last));
        }
    } else {
        assert(flagged(files, flags, false).to_multiset().add(
            flagged(files, flags, true).to_multiset(),
        ) =~= files.to_multiset());
    }
}

/// The files of the new snapshot: those that were kept, then those that were written.
pub fn snapshot_files(kept: Vec<DataFile>, written: Vec<DataFile>) -> (files: Vec<DataFile>)
    ensures
        files@ == kept@ + written@,
{
    let mut files = kept;
    let mut written = written;
    files.append(&mut written);
    files
}

/// The files of the snapshot of a merge: every file that is still part of the table, as it is,
/// then those with the inserted rows.
pub fn merged_files(entries: Vec<ManifestEntry>, inserted: Vec<DataFile>) -> (files: Vec<DataFile>)
    ensures
        files@ == entries@.filter(is_live()).map_values(entry_file()) + inserted@,
{
    snapshot_files(live_files(entries), inserted)
}

/// The rows of a batch before and after the matching ones are taken out.
#[derive(Debug, Clone, Copy, PartialEq, Eq, Structural)]
pub struct BatchRows {
    pub original: u64,
    pub kept: u64,
}

/// The rows before the matching ones are taken out.
pub open spec fn original_rows(batches: Seq<BatchRows>) -> int
    decreases batches.len(),
{
    if batches.len() == 0 {
        0
    } else {
        original_rows(batches.drop_last()) + batches.last().original
    }
}

/// The rows that stay.
pub open spec fn kept_rows(batches: Seq<BatchRows>) -> int
    decreases batches.len(),
{
    if batches.len() == 0 {
        0
    } else {
        kept_rows(batches.drop_last()) + batches.last().kept
    }
}

proof fn lemma_rows_grow(batches: Seq<BatchRows>, n: int)
    requires
        0 <= n <= batches.len(),
    ensures
        original_rows(batches.take(n)) <= original_rows(batches),
    decreases batches.len() - n,
{
    if n < batches.len() {
        lemma_rows_grow(batches, n + 1);
        assert(batches.take(n + 1).drop_last() =~= batches.take(n));
    } else {
        assert(batches.take(n) =~= batches);
    }
}

/// What comes of rewriting a file.
#[derive(Debug, Clone, Copy, PartialEq, Eq, Structural)]
pub struct RewriteOutcome {
    pub deleted_rows: u64,
    /// Whether rows are left, so that a file takes the place of the former one.
    pub writes_file: bool,
}

/// What comes of rewriting a file, given the rows of its batches. Without a row left, no file
/// takes its place.
pub fn rewrite_outcome(batches: &Vec<BatchRows>) -> (outcome: RewriteOutcome)
    requires
        original_rows(batches@) <= u64::MAX,
        forall|i: int| 0 <= i < batches@.len() ==> (#[trigger] batches@[i]).kept
            <= batches@[i].original,
    ensures
        outcome.deleted_rows == original_rows(batches@) - kept_rows(batches@),
        outcome.writes_file <==> kept_rows(batches@) > 0,
{
    let mut original: u64 = 0;
    let mut kept: u64 = 0;
    let mut any = false;
    for i in 0..batches.len()
        invariant
            original_rows(batches@) <= u64::MAX,
            forall|j: int| 0 <= j < batches@.len() ==> (#[trigger] batches@[j]).kept
                <= batches@[j].original,
            original == original_rows(batches@.take(i as int)),
            kept == kept_rows(batches@.take(i as int)),
            kept <= original,
            any <==> kept > 0,
    {
        proof {
            assert(batches@.take(i + 1).drop_last() =~= batches@.take(i as int));
            lemma_rows_grow(batches@, i + 1);
        }
        original = original + batches[i].original;
        kept = kept + batches[i].kept;
        if batches[i].kept > 0 {
            any = true;
        }
    }
    assert(batches@.take(batches@.len() as int) =~= batches@);
    RewriteOutcome { deleted_rows: original - kept, writes_file: any }
}

/// The rows that are deleted in all.
pub open spec fn total_deleted(outcomes: Seq<RewriteOutcome>) -> int
    decreases outcomes.len(),
{
    if outcomes.len() == 0 {
        0
    } else {
        total_deleted(outcomes.drop_last()) + outcomes.last().deleted_rows
    }
}

proof fn lemma_deleted_grows(outcomes: Seq<RewriteOutcome>, n: int)
    requires
        0 <= n <= outcomes.len(),
    ensures
        total_deleted(outcomes.take(n)) <= total_deleted(outcomes),
    decreases outcomes.len() - n,
{
    if n < outcomes.len() {
        lemma_deleted_grows(outcomes, n + 1);
        assert(outcomes.take(n + 1).drop_last() =~= outcomes.take(n));
    } else {
        assert(outcomes.take(n) =~= outcomes);
    }
}

/// The rows that a delete reports.
pub fn deleted_row_count(outcomes: &Vec<RewriteOutcome>) -> (count: u64)
    requires
        total_deleted(outcomes@) <= u64::MAX,
    ensures
        count == total_deleted(outcomes@),
{
    let mut count: u64 = 0;
    for i in 0..outcomes.len()
        invariant
            total_deleted(outcomes@) <= u64::MAX,
            count == total_deleted(outcomes@.take(i as int)),
    {
        proof {
            assert(outcomes@.take(i + 1).drop_last() =~= outcomes@.take(i as int));
            lemma_deleted_grows(outcomes@, i + 1);
        }
        count = count + outcomes[i].deleted_rows;
    }
    assert(outcomes@.take(outcomes@.len() as int) =~= outcomes@);
    count
}

/// The path of a data file with the given identifier.
pub open spec fn data_file_path(identifier: Seq<char>) -> Seq<char> {
    "data/"@ + identifier + ".parquet"@
}

/// The path of a data file with the given identifier.
pub fn data_file_path_text(identifier: &str) -> (path: String)
    ensures
        path@ == data_file_path(identifier@),
{
    let mut path = "data/".to_owned();
    path.append(identifier);
    path.append(".parquet");
    path
}

/// The path of a data file with a fresh identifier.
pub fn new_data_file_path() -> (path: String)
    ensures
        exists|value: u128|
            is_random_uuid(value) && path@ == data_file_path(#[trigger] uuid_display(value)),
{
    let identifier = uuid_text(random_uuid());
    data_file_path_text(identifier.as_str())
}

/// A Parquet file that was written.
#[derive(Debug, Clone, Copy, PartialEq, Eq, Structural)]
pub struct WrittenFile {
    pub rows: u64,
    pub size: u64,
    pub columns: u32,
}

/// A number for each of the columns, which are numbered from one.
pub open spec fn per_column(columns: nat, number: u64) -> Seq<(i32, u64)> {
    Seq::new(columns, |i: int| ((i + 1) as i32, number))
}

fn column_numbers(columns: u32, number: u64) -> (numbers: Vec<(i32, u64)>)
    requires
        columns <= i32::MAX,
    ensures
        numbers@ == per_column(columns as nat, number),
{
    let mut numbers: Vec<(i32, u64)> = Vec::new();
    for i in 0..columns
        invariant
            columns <= i32::MAX,
            numbers@ == per_column(i as nat, number),
    {
        numbers.push(((i + 1) as i32, number));
        assert(numbers@ =~= per_column((i + 1) as nat, number));
    }
    numbers
}

/// Whether a file is described as a Parquet file that was written: its size is spread evenly
/// over the columns, every column has a value in every row, and no bounds are known.
pub open spec fn describes(file: DataFile, written: WrittenFile) -> bool {
    &&& file.file_format is Parquet
    &&& file.record_count == written.rows
    &&& file.file_size_in_bytes == written.size
    &&& file.column_sizes@ == per_column(
        written.columns as nat,
        if written.columns == 0 {
            written.size
        } else {
            (written.size / written.columns as u64) as u64
        },
    )
    &&& file.value_counts@ == per_column(written.columns as nat, written.rows)
    &&& file.null_value_counts@ == per_column(written.columns as nat, 0)
    &&& file.nan_value_counts@.len() == 0
    &&& file.lower_bounds@.len() == 0
    &&& file.upper_bounds@.len() == 0
    &&& file.block_size_in_bytes is None
    &&& file.key_metadata is None
    &&& file.split_offsets@.len() == 0
    &&& file.equality_ids@.len() == 0
    &&& file.sort_order_id is None
    &&& file.first_row_id is None
    &&& file.referenced_data_file is None
    &&& file.content_offset is None
    &&& file.content_size_in_bytes is None
}

/// The data file for a Parquet file that was written.
pub fn written_data_file(
    file_path: String,
    content: DataContentType,
    partition: Vec<String>,
    partition_spec_id: i32,
    written: WrittenFile,
) -> (file: DataFile)
    requires
        written.columns <= i32::MAX,
    ensures
        file.file_path == file_path,
        file.content == content,
        file.partition == partition,
        file.partition_spec_id == partition_spec_id,
        describes(file, written),
{
    let share: u64 = if written.columns == 0 {
        written.size
    } else {
        written.size / (written.columns as u64)
    };
    DataFile {
        content,
        file_path,
        file_format: DataFileFormat::Parquet,
        partition,
        record_count: written.rows,
        file_size_in_bytes: written.size,
        column_sizes: column_numbers(written.columns, share),
        value_counts: column_numbers(written.columns, written.rows),
        null_value_counts: column_numbers(written.columns, 0),
        nan_value_counts: Vec::new(),
        lower_bounds: Vec::new(),
        upper_bounds: Vec::new(),
        block_size_in_bytes: None,
        key_metadata: None,
        split_offsets: Vec::new(),
        equality_ids: Vec::new(),
        sort_order_id: None,
        first_row_id: None,
        partition_spec_id,
        referenced_data_file: None,
        content_offset: None,
        content_size_in_bytes: None,
    }
}

/// The data file that takes the place of another, of the same kind and in the same partition.
pub fn rewritten_data_file(file_path: String, former: &DataFile, written: WrittenFile) -> (file:
    DataFile)
    requires
        written.columns <= i32::MAX,
    ensures
        file.file_path == file_path,
        file.content == former.content,
        file.partition@ == former.partition@,
        file.partition_spec_id == former.partition_spec_id,
        describes(file, written),
{
    written_data_file(
        file_path,
        former.content,
        duplicate_texts(&former.partition),
        former.partition_spec_id,
        written,
    )
}

/// The data file for rows that a merge inserts: of the kind and in the partition of the first
/// file of the table, where it has one.
pub fn inserted_data_file(file_path: String, reference: Option<&DataFile>, written: WrittenFile) -> (
    file: DataFile)
    requires
        written.columns <= i32::MAX,
    ensures
        file.file_path == file_path,
        match reference {
            Some(r) => file.content == r.content && file.partition@ == r.partition@
                && file.partition_spec_id == r.partition_spec_id,
            None => file.content is Data && file.partition@.len() == 0 && file.partition_spec_id
                == 0,
        },
        describes(file, written),
{
    match reference {
        Some(former) => rewritten_data_file(file_path, former, written),
        None => written_data_file(file_path, DataContentType::Data, Vec::new(), 0, written),
    }
}

/// What a merge has to do to the rows of a table.
#[derive(Debug, Clone, Copy, PartialEq, Eq, Structural)]
pub struct MergeWork {
    /// Whether the rows of the table are matched with those of the source.
    pub matches_rows: bool,
    /// How often the rows that only the source has are written.
    pub inserts: usize,
}

/// What a merge has to do, given the number of its clauses for rows that only the source has,
/// where it has options, and whether the table and the source have rows. Every such clause
/// inserts.
pub fn merge_work(insert_clauses: Option<usize>, target_has_rows: bool, source_has_rows: bool) -> (
    work: MergeWork)
    ensures
        work.matches_rows <==> insert_clauses is Some && target_has_rows,
        work.inserts == (match insert_clauses {
            Some(count) if target_has_rows && source_has_rows => count,
            _ => 0,
        }),
{
    match insert_clauses {
        Some(count) => MergeWork {
            matches_rows: target_has_rows,
            inserts: if target_has_rows && source_has_rows {
                count
            } else {
                0
            },
        },
        None => MergeWork { matches_rows: false, inserts: 0 },
    }
}

/// A file is split by its own flag: it is among those with the flag, and among no others. Files
/// keep their order.
pub proof fn law_files_are_split_by_flags(
    files: Seq<DataFile>,
    flags: Seq<bool>,
    file: DataFile,
    flag: bool,
    wanted: bool,
)
    requires
        files.len() == flags.len(),
    ensures
        flagged(Seq::empty(), Seq::empty(), wanted).len() == 0,
        flag == wanted ==> flagged(files.push(file), flags.push(flag), wanted) == flagged(
            files,
            flags,
            wanted,
        ) + seq![file],
        flag != wanted ==> flagged(files.push(file), flags.push(flag), wanted) == flagged(
            files,
            flags,
            wanted,
        ),
{
    assert(files.push(file).drop_last() =~= files);
    assert(flags.push(flag).drop_last() =~= flags);
    assert(flagged(files, flags, wanted).push(file) =~= flagged(files, flags, wanted) + seq![file]);
}

/// A delete with a condition keeps the files that cannot match as they are and rewrites the
/// others; one without a condition keeps and rewrites none.
pub proof fn law_deletes_split_files(files: Seq<DataFile>, flags: Seq<bool>)
    requires
        files.len() == flags.len(),
    ensures
        delete_split(files, Some(flags)).0 == flagged(files, flags, false),
        delete_split(files, Some(flags)).1 == flagged(files, flags, true),
        delete_split(files, None).0.len() == 0,
        delete_split(files, None).1.len() == 0,
        delete_split(files, Some(flags)).0.len() + delete_split(files, Some(flags)).1.len()
            == files.len(),
    decreases files.len(),
{
    if files.len() > 0 {
        law_deletes_split_files(files.drop_last(), flags.drop_last());
    }
}

/// An entry is live unless its file was deleted.
pub proof fn law_live_entries(entry: ManifestEntry)
    ensures
        is_live()(entry) <==> entry.status is Added || entry.status is Existing,
        entry_file()(entry) == entry.data_file,
{
}

/// The rows of batches add up.
pub proof fn law_rows_of_batches(batches: Seq<BatchRows>, batch: BatchRows)
    ensures
        original_rows(Seq::empty()) == 0,
        kept_rows(Seq::empty()) == 0,
        original_rows(batches.push(batch)) == original_rows(batches) + batch.original,
        kept_rows(batches.push(batch)) == kept_rows(batches) + batch.kept,
{
    assert(batches.push(batch).drop_last() =~= batches);
}

/// The rows that were deleted add up.
pub proof fn law_deleted_rows(outcomes: Seq<RewriteOutcome>, outcome: RewriteOutcome)
    ensures
        total_deleted(Seq::empty()) == 0,
        total_deleted(outcomes.push(outcome)) == total_deleted(outcomes) + outcome.deleted_rows,
{
    assert(outcomes.push(outcome).drop_last() =~= outcomes);
}

/// A written file says of each of its columns, numbered from one, an equal share of its size, as
/// many values as it has rows, and no nulls.
pub proof fn law_written_files(file: DataFile, written: WrittenFile, i: int)
    requires
        describes(file, written),
        0 <= i < written.columns <= i32::MAX,
    ensures
        file.record_count == written.rows,
        file.file_size_in_bytes == written.size,
        file.column_sizes@.len() == written.columns,
        file.value_counts@.len() == written.columns,
        file.null_value_counts@.len() == written.columns,
        file.column_sizes@[i] == (
            (i + 1) as i32,
            (written.size / written.columns as u64) as u64,
        ),
        file.value_counts@[i] == ((i + 1) as i32, written.rows),
        file.null_value_counts@[i] == ((i + 1) as i32, 0u64),
{
}

/// A merge matches rows where it may insert and the table has rows, and writes the rows that only
/// the source has once for each clause that inserts them, where both have rows.
pub proof fn law_merge_work(
    insert_clauses: Option<usize>,
    target_has_rows: bool,
    source_has_rows: bool,
    work: MergeWork,
)
    requires
        call_ensures(merge_work, (insert_clauses, target_has_rows, source_has_rows), work),
    ensures
        !target_has_rows || insert_clauses is None ==> !work.matches_rows && work.inserts == 0,
        work.matches_rows && source_has_rows ==> Some(work.inserts) == insert_clauses,
        !source_has_rows ==> work.inserts == 0,
        insert_clauses is Some && target_has_rows ==> work.matches_rows,
{
}

/// A file that takes the place of another belongs where that one did.
pub proof fn law_rewritten_files_stay(
    file_path: String,
    former: DataFile,
    written: WrittenFile,
    file: DataFile,
)
    requires
        written.columns <= i32::MAX,
        call_ensures(rewritten_data_file, (file_path, &former, written), file),
    ensures
        file.file_path == file_path,
        file.content == former.content,
        file.partition@ == former.partition@,
        file.partition_spec_id == former.partition_spec_id,
        file.record_count == written.rows && file.file_size_in_bytes == written.size,
{
}

/// A file of inserted rows is like the file that it goes with, in content, partition and spec, or
/// lies in no partition where there is none; it has the rows and the size that were written.
pub proof fn law_inserted_files(
    file_path: String,
    reference: Option<&DataFile>,
    written: WrittenFile,
    file: DataFile,
)
    requires
        call_ensures(inserted_data_file, (file_path, reference, written), file),
    ensures
        file.file_path == file_path,
        reference matches Some(r) ==> file.content == r.content && file.partition@ == r.partition@
            && file.partition_spec_id == r.partition_spec_id,
        reference is None ==> file.content == DataContentType::Data && file.partition@.len() == 0
            && file.partition_spec_id == 0,
        file.record_count == written.rows,
        file.file_size_in_bytes == written.size,
{
}

/// Of a file that was written nothing is known beyond its rows and its sizes: no bounds, no offsets,
/// no order and no keys.
pub proof fn law_written_files_say_no_more(file: DataFile, written: WrittenFile)
    requires
        describes(file, written),
    ensures
        file.file_format == DataFileFormat::Parquet,
        file.nan_value_counts@.len() == 0,
        file.lower_bounds@.len() == 0 && file.upper_bounds@.len() == 0,
        file.split_offsets@.len() == 0 && file.equality_ids@.len() == 0,
        file.block_size_in_bytes is None && file.key_metadata is None,
        file.sort_order_id is None && file.first_row_id is None,
        file.referenced_data_file is None,
        file.content_offset is None && file.content_size_in_bytes is None,
{
}

/// Data files lie in the data directory, and their names tell them apart.
pub proof fn law_data_file_paths(a: Seq<char>, b: Seq<char>)
    ensures
        data_file_path(a).take(5) == "data/"@,
        data_file_path(a) == data_file_path(b) ==> a == b,
{
    reveal_strlit("data/");
    reveal_strlit(".parquet");
    assert(data_file_path(a).take(5) =~= "data/"@);
    let (x, y) = (data_file_path(a), data_file_path(b));
    if x == y {
        assert(x.len() == a.len() + 13 && y.len() == b.len() + 13);
        assert(x.subrange(5, 5 + a.len() as int) =~= a);
        assert(y.subrange(5, 5 + b.len() as int) =~= b);
    }
}

} // verus!

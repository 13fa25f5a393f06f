//! Semantic conflicts between commits that happen at the same time.

use vstd::prelude::*;
use vstd::string::*;

use crate::iceberg::commit::meta::IcebergCommitInfo;
use crate::iceberg::commit::parents::contains_text;
use crate::iceberg::contents::same_text_pairs;
use crate::iceberg::identifiers::shown_uuid_text;
use crate::iceberg::table::{
    DataFile, Operation, PartitionSpec, TableMetadata, TableRequirement, TableUpdate,
};
use crate::shown::{list_text, quoted_list_text, quoted_text};
use crate::text::signed_decimal_text;

verus! {

use crate::iceberg::commit::update::unpartitioned;
use crate::iceberg::contents::{text_pairs, texts};
use crate::iceberg::identifiers::shown_uuid;
use crate::shown::{all_quoted, quoted, shown_list};
use crate::text::signed_decimal;

/// Identifies a specific partition value for conflict detection.
#[derive(Debug)]
pub struct PartitionKey {
    pub spec_id: i32,
    /// Stringified partition values (field_name -> value_string).
    pub values: Vec<(String, String)>,
}

/// A partition key, by its contents.
#[verifier::ext_equal]
pub struct PartitionKeyView {
    pub spec_id: i32,
    pub values: Seq<(Seq<char>, Seq<char>)>,
}

impl View for PartitionKey {
    type V = PartitionKeyView;

    open spec fn view(&self) -> PartitionKeyView {
        PartitionKeyView { spec_id: self.spec_id, values: text_pairs(self.values@) }
    }
}

/// How many fields of a partition spec a file has values for.
pub open spec fn shared_fields(file: DataFile, spec: PartitionSpec) -> nat {
    if file.partition@.len() < spec.fields@.len() {
        file.partition@.len()
    } else {
        spec.fields@.len()
    }
}

/// The key of the partition that a file is in.
pub open spec fn key_of(file: DataFile, spec: PartitionSpec) -> PartitionKeyView {
    PartitionKeyView {
        spec_id: spec.spec_id,
        values: Seq::new(
            shared_fields(file, spec),
            |i: int| (spec.fields@[i].name@, file.partition@[i]@),
        ),
    }
}

impl PartitionKey {
    pub fn from_data_file(file: &DataFile, spec: &PartitionSpec) -> (key: PartitionKey)
        ensures
            key@ == key_of(*file, *spec),
    {
        let mut values: Vec<(String, String)> = Vec::new();
        let count: usize = if file.partition.len() < spec.fields.len() {
            file.partition.len()
        } else {
            spec.fields.len()
        };
        for i in 0..count
            invariant
                count == shared_fields(*file, *spec),
                text_pairs(values@) == key_of(*file, *spec).values.take(i as int),
        {
            let ghost before = text_pairs(values@);
            values.push((spec.fields[i].name.clone(), file.partition[i].clone()));
            assert(text_pairs(values@) =~= before.push(key_of(*file, *spec).values[i as int]));
            assert(key_of(*file, *spec).values.take(i + 1) =~= before.push(
                key_of(*file, *spec).values[i as int],
            ));
        }
        assert(key_of(*file, *spec).values.take(count as int) =~= key_of(*file, *spec).values);
        PartitionKey { spec_id: spec.spec_id, values }
    }

    /// Whether two keys are of the same partition.
    pub fn same(&self, other: &PartitionKey) -> (same: bool)
        ensures
            same == (self@ == other@),
    {
        let same = self.spec_id == other.spec_id && same_text_pairs(&self.values, &other.values);
        assert(same ==> self@ =~= other@);
        same
    }

    /// The key as it shows in messages.
    pub fn text(&self) -> (text: String)
        ensures
            text@ == self@.text(),
    {
        let mut shown: Vec<String> = Vec::new();
        for i in 0..self.values.len()
            invariant
                texts(shown@) == shown_pairs(text_pairs(self.values@).take(i as int)),
        {
            let ghost before = texts(shown@);
            let ghost pair = text_pairs(self.values@)[i as int];
            let mut text = "(".to_owned();
            text.append(quoted_text(self.values[i].0.as_str()).as_str());
            text.append(", ");
            text.append(quoted_text(self.values[i].1.as_str()).as_str());
            text.append(")");
            assert(text@ == shown_pair(pair));
            shown.push(text);
            assert(texts(shown@) =~= before.push(shown_pair(pair)));
            assert(shown_pairs(text_pairs(self.values@).take(i + 1)) =~= before.push(
                shown_pair(pair),
            ));
        }
        assert(text_pairs(self.values@).take(self.values@.len() as int) =~= text_pairs(
            self.values@,
        ));
        let mut text = "PartitionKey { spec_id: ".to_owned();
        text.append(signed_decimal_text(self.spec_id as i64).as_str());
        text.append(", values: ");
        text.append(list_text(&shown).as_str());
        text.append(" }");
        text
    }
}

/// A pair of texts, as it shows in messages.
pub open spec fn shown_pair(pair: (Seq<char>, Seq<char>)) -> Seq<char> {
    "("@ + quoted(pair.0) + ", "@ + quoted(pair.1) + ")"@
}

/// Pairs of texts, as they show in messages.
pub open spec fn shown_pairs(pairs: Seq<(Seq<char>, Seq<char>)>) -> Seq<Seq<char>> {
    pairs.map_values(|pair: (Seq<char>, Seq<char>)| shown_pair(pair))
}

impl PartitionKeyView {
    /// The key as it shows in messages.
    pub open spec fn text(self) -> Seq<char> {
        "PartitionKey { spec_id: "@ + signed_decimal(self.spec_id as int) + ", values: "@
            + shown_list(shown_pairs(self.values)) + " }"@
    }
}

/// Schema-level changes made by a transaction.
#[derive(Debug)]
pub struct TransactionSchemaChange {
    pub old_schema_id: i32,
    pub new_schema_id: i32,
    pub added_columns: Vec<String>,
    pub removed_columns: Vec<String>,
    /// (column_name, old_type, new_type)
    pub type_changes: Vec<(String, String, String)>,
    /// (old_name, new_name)
    pub renames: Vec<(String, String)>,
}

/// Changes of types, by their contents.
pub open spec fn text_triples(list: Seq<(String, String, String)>) -> Seq<
    (Seq<char>, Seq<char>, Seq<char>),
> {
    list.map_values(|item: (String, String, String)| (item.0@, item.1@, item.2@))
}

/// A change of a type, as it shows in messages.
pub open spec fn shown_triple(item: (Seq<char>, Seq<char>, Seq<char>)) -> Seq<char> {
    "("@ + quoted(item.0) + ", "@ + quoted(item.1) + ", "@ + quoted(item.2) + ")"@
}

/// Changes of types, as they show in messages.
pub open spec fn shown_triples(items: Seq<(Seq<char>, Seq<char>, Seq<char>)>) -> Seq<char> {
    shown_list(items.map_values(|item: (Seq<char>, Seq<char>, Seq<char>)| shown_triple(item)))
}

fn triples_text(items: &Vec<(String, String, String)>) -> (text: String)
    ensures
        text@ == shown_triples(text_triples(items@)),
{
    let ghost show = |item: (Seq<char>, Seq<char>, Seq<char>)| shown_triple(item);
    let ghost all = text_triples(items@);
    let mut shown: Vec<String> = Vec::new();
    for i in 0..items.len()
        invariant
            show == (|item: (Seq<char>, Seq<char>, Seq<char>)| shown_triple(item)),
            all == text_triples(items@),
            texts(shown@) == all.take(i as int).map_values(show),
    {
        let ghost before = texts(shown@);
        let mut text = "(".to_owned();
        text.append(quoted_text(items[i].0.as_str()).as_str());
        text.append(", ");
        text.append(quoted_text(items[i].1.as_str()).as_str());
        text.append(", ");
        text.append(quoted_text(items[i].2.as_str()).as_str());
        text.append(")");
        assert(text@ == shown_triple(all[i as int]));
        shown.push(text);
        assert(texts(shown@) =~= before.push(shown_triple(all[i as int])));
        assert(all.take(i + 1).map_values(show) =~= before.push(shown_triple(all[i as int])));
    }
    assert(all.take(all.len() as int) =~= all);
    list_text(&shown)
}

/// Reason for semantic conflict.
#[derive(Debug)]
#[allow(inconsistent_fields)]
pub enum ConflictReason {
    /// Table UUID changed (table was recreated).
    TableUuidChanged { expected: Option<u128>, actual: Option<u128> },
    /// Incompatible schema changes between concurrent transactions.
    IncompatibleSchemaChange { detail: String },
    /// Both transactions wrote to the same partition.
    ConcurrentOverwrite {
        partition: String,
        winning_operation: Operation,
        our_operation: Operation,
    },
    /// Winning commit deleted files that our transaction depends on, which may have deleted
    /// them too.
    ConcurrentDeleteRead { files: Vec<String> },
    /// Current schema ID changed (our schema change conflicts).
    SchemaIdChanged { expected: i32, actual: i32 },
}

/// A reason, by its contents.
#[allow(inconsistent_fields)]
pub enum ConflictFault {
    TableUuidChanged { expected: Option<u128>, actual: Option<u128> },
    IncompatibleSchemaChange { detail: Seq<char> },
    ConcurrentOverwrite {
        partition: Seq<char>,
        winning_operation: Operation,
        our_operation: Operation,
    },
    ConcurrentDeleteRead { files: Seq<Seq<char>> },
    SchemaIdChanged { expected: i32, actual: i32 },
}

impl View for ConflictReason {
    type V = ConflictFault;

    open spec fn view(&self) -> ConflictFault {
        match self {
            ConflictReason::TableUuidChanged { expected, actual } => {
                ConflictFault::TableUuidChanged { expected: *expected, actual: *actual }
            },
            ConflictReason::IncompatibleSchemaChange { detail } => {
                ConflictFault::IncompatibleSchemaChange { detail: detail@ }
            },
            ConflictReason::ConcurrentOverwrite {
                partition,
                winning_operation,
                our_operation,
            } => ConflictFault::ConcurrentOverwrite {
                partition: partition@,
                winning_operation: *winning_operation,
                our_operation: *our_operation,
            },
            ConflictReason::ConcurrentDeleteRead { files } => ConflictFault::ConcurrentDeleteRead {
                files: texts(files@),
            },
            ConflictReason::SchemaIdChanged { expected, actual } => {
                ConflictFault::SchemaIdChanged { expected: *expected, actual: *actual }
            },
        }
    }
}

/// The name of an operation.
pub open spec fn operation_name(operation: Operation) -> Seq<char> {
    match operation {
        Operation::Append => "Append"@,
        Operation::Replace => "Replace"@,
        Operation::Overwrite => "Overwrite"@,
        Operation::Delete => "Delete"@,
    }
}

fn operation_text(operation: Operation) -> (name: String)
    ensures
        name@ == operation_name(operation),
{
    match operation {
        Operation::Append => "Append".to_owned(),
        Operation::Replace => "Replace".to_owned(),
        Operation::Overwrite => "Overwrite".to_owned(),
        Operation::Delete => "Delete".to_owned(),
    }
}

impl ConflictFault {
    /// The message of a conflict.
    pub open spec fn text(self) -> Seq<char> {
        "Iceberg commit conflict: "@ + (match self {
            ConflictFault::TableUuidChanged { expected, actual } => {
                "table UUID changed (expected "@ + shown_uuid(expected) + ", found "@ + shown_uuid(
                    actual,
                ) + ")"@
            },
            ConflictFault::IncompatibleSchemaChange { detail } => detail,
            ConflictFault::ConcurrentOverwrite {
                partition,
                winning_operation,
                our_operation,
            } => if our_operation is Append && winning_operation is Overwrite {
                "concurrent overwrite and append on partition "@ + partition
            } else {
                (if our_operation is Overwrite || winning_operation is Overwrite {
                    "concurrent overwrite on partition "@
                } else {
                    "concurrent operations on partition "@
                }) + partition + " (our_op="@ + operation_name(our_operation) + ", winning_op="@
                    + operation_name(winning_operation) + ")"@
            },
            ConflictFault::ConcurrentDeleteRead { files } => {
                "winning commit deleted files our transaction depends on: "@ + shown_list(
                    all_quoted(files),
                )
            },
            ConflictFault::SchemaIdChanged { expected, actual } => {
                "schema ID changed (expected "@ + signed_decimal(expected as int) + ", found "@
                    + signed_decimal(actual as int) + ")"@
            },
        })
    }
}

impl ConflictReason {
    /// The message of the conflict.
    pub fn message(&self) -> (text: String)
        ensures
            text@ == self@.text(),
    {
        let mut detail = match self {
            ConflictReason::TableUuidChanged { expected, actual } => {
                let mut detail = "table UUID changed (expected ".to_owned();
                detail.append(shown_uuid_text(*expected).as_str());
                detail.append(", found ");
                detail.append(shown_uuid_text(*actual).as_str());
                detail.append(")");
                detail
            },
            ConflictReason::IncompatibleSchemaChange { detail } => detail.clone(),
            ConflictReason::ConcurrentOverwrite {
                partition,
                winning_operation,
                our_operation,
            } => {
                let appends = matches!(*our_operation, Operation::Append);
                let we_overwrite = matches!(*our_operation, Operation::Overwrite);
                let they_overwrite = matches!(*winning_operation, Operation::Overwrite);
                if appends && they_overwrite {
                    let mut detail = "concurrent overwrite and append on partition ".to_owned();
                    detail.append(partition.as_str());
                    detail
                } else {
                    let mut detail = if we_overwrite || they_overwrite {
                        "concurrent overwrite on partition ".to_owned()
                    } else {
                        "concurrent operations on partition ".to_owned()
                    };
                    detail.append(partition.as_str());
                    detail.append(" (our_op=");
                    detail.append(operation_text(*our_operation).as_str());
                    detail.append(", winning_op=");
                    detail.append(operation_text(*winning_operation).as_str());
                    detail.append(")");
                    detail
                }
            },
            ConflictReason::ConcurrentDeleteRead { files } => {
                let mut detail =
                    "winning commit deleted files our transaction depends on: ".to_owned();
                detail.append(quoted_list_text(files).as_str());
                detail
            },
            ConflictReason::SchemaIdChanged { expected, actual } => {
                let mut detail = "schema ID changed (expected ".to_owned();
                detail.append(signed_decimal_text(*expected as i64).as_str());
                detail.append(", found ");
                detail.append(signed_decimal_text(*actual as i64).as_str());
                detail.append(")");
                detail
            },
        };
        let mut text = "Iceberg commit conflict: ".to_owned();
        text.append(detail.as_str());
        text
    }
}

/// Result of running conflict detection.
#[derive(Debug)]
pub enum ConflictCheckResult<'a> {
    /// No semantic conflict — transaction can proceed with updated state.
    NoConflict {
        /// Updated metadata reflecting winning commit's changes.
        updated_metadata: &'a TableMetadata,
    },
    /// Semantic conflict detected — transaction must fail.
    Conflict {
        /// Reason for the conflict.
        reason: ConflictReason,
    },
}

/// Information about the current (rejected) transaction.
#[derive(Debug)]
pub struct TransactionInfo {
    /// Table metadata at transaction start (what we loaded).
    pub read_metadata: TableMetadata,
    /// Operation being performed.
    pub operation: Operation,
    /// Data files being added by our transaction.
    pub added_files: Vec<DataFile>,
    /// Data files being removed (for Overwrite/Delete/Replace).
    pub removed_files: Vec<DataFile>,
    /// Partition values affected by our transaction.
    pub partition_values: Vec<PartitionKey>,
    /// Whether our transaction read the entire table.
    pub read_whole_table: bool,
    /// Schema changes (if any) — None means no schema change.
    pub schema_changes: Option<TransactionSchemaChange>,
    /// Our transaction's commit requirements.
    pub requirements: Vec<TableRequirement>,
    /// Our transaction's metadata updates.
    pub updates: Vec<TableUpdate>,
}

/// Partition keys, by their contents.
pub open spec fn key_views(keys: Seq<PartitionKey>) -> Seq<PartitionKeyView> {
    keys.map_values(|key: PartitionKey| key@)
}

/// The partition spec by which the files of a transaction are placed.
pub open spec fn files_spec(metadata: TableMetadata, spec: PartitionSpec) -> bool {
    match metadata.default_spec_position() {
        Some(at) => spec == metadata.partition_specs@[at],
        None => spec@ == unpartitioned(),
    }
}

fn contains_key(keys: &Vec<PartitionKey>, key: &PartitionKey) -> (found: bool)
    ensures
        found == key_views(keys@).contains(key@),
{
    for i in 0..keys.len()
        invariant
            forall|j: int| 0 <= j < i ==> key_views(keys@)[j] != key@,
    {
        if keys[i].same(key) {
            assert(key_views(keys@)[i as int] == key@);
            return true;
        }
    }
    false
}

/// The keys of the partitions that files are in, each once, in the order of first files.
pub open spec fn partition_keys(files: Seq<DataFile>, spec: PartitionSpec) -> Seq<PartitionKeyView>
    decreases files.len(),
{
    if files.len() == 0 {
        Seq::empty()
    } else {
        let before = partition_keys(files.drop_last(), spec);
        let key = key_of(files.last(), spec);
        if before.contains(key) {
            before
        } else {
            before.push(key)
        }
    }
}

fn collect_keys(files: &Vec<DataFile>, spec: &PartitionSpec) -> (keys: Vec<PartitionKey>)
    ensures
        key_views(keys@) == partition_keys(files@, *spec),
{
    let mut keys: Vec<PartitionKey> = Vec::new();
    assert(key_views(keys@) =~= partition_keys(files@.take(0), *spec));
    for i in 0..files.len()
        invariant
            key_views(keys@) == partition_keys(files@.take(i as int), *spec),
    {
        let ghost before = key_views(keys@);
        assert(files@.take(i + 1).drop_last() =~= files@.take(i as int));
        let key = PartitionKey::from_data_file(&files[i], spec);
        let ghost view = key@;
        if !contains_key(&keys, &key) {
            keys.push(key);
            assert(key_views(keys@) =~= before.push(view));
        }
    }
    assert(files@.take(files@.len() as int) =~= files@);
    keys
}

impl TransactionInfo {
    /// Build a `TransactionInfo` from the commit execution context.
    pub fn new(read_metadata: TableMetadata, commit_info: IcebergCommitInfo) -> (info:
        TransactionInfo)
        ensures
            info.read_metadata == read_metadata,
            info.operation == commit_info.operation,
            info.added_files == commit_info.data_files,
            info.removed_files@.len() == 0,
            exists|spec: PartitionSpec| #[trigger]
                files_spec(read_metadata, spec) && key_views(info.partition_values@)
                    == partition_keys(commit_info.data_files@, spec),
            !info.read_whole_table,
            info.schema_changes is None,
            info.requirements == commit_info.requirements,
            info.updates == commit_info.updates,
    {
        let partition_values = match read_metadata.default_spec_index() {
            Some(at) => {
                let keys = collect_keys(
                    &commit_info.data_files,
                    &read_metadata.partition_specs[at],
                );
                assert(files_spec(read_metadata, read_metadata.partition_specs@[at as int]));
                keys
            },
            None => {
                let spec = PartitionSpec::unpartitioned_spec();
                assert(files_spec(read_metadata, spec));
                collect_keys(&commit_info.data_files, &spec)
            },
        };
        TransactionInfo {
            read_metadata,
            operation: commit_info.operation,
            added_files: commit_info.data_files,
            removed_files: Vec::new(),
            partition_values,
            read_whole_table: false,
            schema_changes: None,
            requirements: commit_info.requirements,
            updates: commit_info.updates,
        }
    }
}

/// Summary of the commit that succeeded ahead of ours.
#[derive(Debug)]
pub struct WinningCommitSummary {
    /// Full table metadata AFTER the winning commit.
    pub metadata: TableMetadata,
    /// Operation performed by the winning commit.
    pub operation: Operation,
    /// Files added by the winning commit.
    pub added_files: Vec<DataFile>,
    /// Files removed by the winning commit.
    pub removed_files: Vec<DataFile>,
    /// Partition values affected by the winning commit.
    pub partition_values: Vec<PartitionKey>,
    /// Schema changes by the winning commit.
    pub schema_changes: Option<TransactionSchemaChange>,
    /// Snapshot ID of the winning commit.
    pub snapshot_id: i64,
    /// Parent snapshot ID (what the winning commit read).
    pub parent_snapshot_id: Option<i64>,
}

/// Semantic conflict checker for Iceberg commits.
///
/// Analyzes the winning commit to determine if a rejected transaction can safely proceed or
/// must fail.
#[derive(Debug)]
pub struct ConflictChecker {
    pub transaction: TransactionInfo,
    pub winning_commit: WinningCommitSummary,
}

/// The texts of a list that are also in another, each once, in order.
pub open spec fn common_texts(ours: Seq<Seq<char>>, theirs: Seq<Seq<char>>) -> Seq<Seq<char>>
    decreases ours.len(),
{
    if ours.len() == 0 {
        Seq::empty()
    } else {
        let before = common_texts(ours.drop_last(), theirs);
        if theirs.contains(ours.last()) && !before.contains(ours.last()) {
            before.push(ours.last())
        } else {
            before
        }
    }
}

proof fn lemma_common_texts(ours: Seq<Seq<char>>, theirs: Seq<Seq<char>>)
    ensures
        forall|text: Seq<char>| #[trigger]
            common_texts(ours, theirs).contains(text) <==> ours.contains(text) && theirs.contains(
                text,
            ),
        common_texts(ours, theirs).no_duplicates(),
    decreases ours.len(),
{
    if ours.len() > 0 {
        let (init, last) = (ours.drop_last(), ours.last());
        lemma_common_texts(init, theirs);
        let before = common_texts(init, theirs);
        let after = common_texts(ours, theirs);
        assert forall|text: Seq<char>| #[trigger]
            after.contains(text) <==> ours.contains(text) && theirs.contains(text) by {
            if ours.contains(text) {
                let i = choose|i: int| 0 <= i < ours.len() && ours[i] == text;
                if i < init.len() {
                    assert(init[i] == text);
                    assert(init.contains(text));
                }
            }
            if init.contains(text) {
                let i = choose|i: int| 0 <= i < init.len() && init[i] == text;
                assert(ours[i] == text);
            }
            assert(ours[ours.len() - 1] == last);
            if before.contains(text) {
                let i = choose|i: int| 0 <= i < before.len() && before[i] == text;
                assert(after[i] == text);
            }
            if after.contains(text) && !before.contains(text) {
                let i = choose|i: int| 0 <= i < after.len() && after[i] == text;
                if i < before.len() {
                    assert(before[i] == text);
                }
            }
            if theirs.contains(last) && !before.contains(last) {
                assert(after[after.len() - 1] == last);
            }
        }
    }
}

fn common(ours: &Vec<String>, theirs: &Vec<String>) -> (shared: Vec<String>)
    ensures
        texts(shared@) == common_texts(texts(ours@), texts(theirs@)),
{
    let ghost all = texts(ours@);
    let mut shared: Vec<String> = Vec::new();
    assert(texts(shared@) =~= common_texts(all.take(0), texts(theirs@)));
    for i in 0..ours.len()
        invariant
            all == texts(ours@),
            texts(shared@) == common_texts(all.take(i as int), texts(theirs@)),
    {
        let ghost before = texts(shared@);
        proof {
            assert(all.take(i + 1).drop_last() =~= all.take(i as int));
            assert(all.take(i + 1).last() == ours@[i as int]@);
        }
        if contains_text(theirs, &ours[i]) && !contains_text(&shared, &ours[i]) {
            shared.push(ours[i].clone());
            assert(texts(shared@) =~= before.push(ours@[i as int]@));
        }
    }
    assert(all.take(all.len() as int) =~= all);
    shared
}

/// The paths of files.
pub open spec fn paths(files: Seq<DataFile>) -> Seq<Seq<char>> {
    files.map_values(|file: DataFile| file.file_path@)
}

fn add_paths(list: &mut Vec<String>, files: &Vec<DataFile>)
    ensures
        texts(final(list)@) == texts(old(list)@) + paths(files@),
{
    let ghost start = texts(list@);
    for i in 0..files.len()
        invariant
            texts(list@) == start + paths(files@).take(i as int),
    {
        let ghost before = texts(list@);
        list.push(files[i].file_path.clone());
        assert(texts(list@) =~= before.push(files@[i as int].file_path@));
        assert(start + paths(files@).take(i + 1) =~= before.push(files@[i as int].file_path@));
    }
    assert(paths(files@).take(files@.len() as int) =~= paths(files@));
}

/// The first key of a list that is also in another.
pub open spec fn first_shared_key(
    ours: Seq<PartitionKeyView>,
    theirs: Seq<PartitionKeyView>,
) -> Option<PartitionKeyView>
    decreases ours.len(),
{
    if ours.len() == 0 {
        None
    } else if theirs.contains(ours[0]) {
        Some(ours[0])
    } else {
        first_shared_key(ours.skip(1), theirs)
    }
}

/// The conflict over the identity of the table, where there is one.
pub open spec fn uuid_conflict(ours: Option<u128>, theirs: Option<u128>) -> Option<ConflictFault> {
    if ours == theirs {
        None
    } else {
        Some(ConflictFault::TableUuidChanged { expected: ours, actual: theirs })
    }
}

/// The conflict between changes of the schema, where there is one. Two changes are compatible
/// where they only add columns, and not the same ones. A change stands alone where the schema
/// is the one that it started from, or the one that it leads to.
pub open spec fn schema_conflict(
    ours: Option<TransactionSchemaChange>,
    theirs: Option<TransactionSchemaChange>,
    current_schema_id: i32,
) -> Option<ConflictFault> {
    match (ours, theirs) {
        (None, _) => None,
        (Some(our), None) => if current_schema_id != our.old_schema_id && current_schema_id
            != our.new_schema_id {
            Some(
                ConflictFault::SchemaIdChanged {
                    expected: our.old_schema_id,
                    actual: current_schema_id,
                },
            )
        } else {
            None
        },
        (Some(our), Some(their)) => if our.type_changes@.len() > 0 || their.type_changes@.len()
            > 0 {
            Some(
                ConflictFault::IncompatibleSchemaChange {
                    detail: "concurrent type changes (ours="@ + shown_triples(
                        text_triples(our.type_changes@),
                    ) + ", winning="@ + shown_triples(text_triples(their.type_changes@)) + ")"@,
                },
            )
        } else if our.removed_columns@.len() > 0 || their.removed_columns@.len() > 0 {
            Some(
                ConflictFault::IncompatibleSchemaChange { detail: "concurrent column removals"@ },
            )
        } else {
            let shared = common_texts(texts(our.added_columns@), texts(their.added_columns@));
            if shared.len() > 0 {
                Some(
                    ConflictFault::IncompatibleSchemaChange {
                        detail: "both transactions added columns "@ + shown_list(
                            all_quoted(shared),
                        ),
                    },
                )
            } else {
                None
            }
        },
    }
}

/// Whether two operations get along on the same partition: two appends do, and two deletes,
/// whose files are compared by themselves.
pub open spec fn get_along(ours: Operation, theirs: Operation) -> bool {
    (ours is Append && theirs is Append) || (ours is Delete && theirs is Delete)
}

/// The conflict over partitions, where there is one.
pub open spec fn partition_conflict(
    ours: Seq<PartitionKeyView>,
    theirs: Seq<PartitionKeyView>,
    our_operation: Operation,
    winning_operation: Operation,
) -> Option<ConflictFault> {
    match first_shared_key(ours, theirs) {
        Some(key) if !get_along(our_operation, winning_operation) => Some(
            ConflictFault::ConcurrentOverwrite {
                partition: key.text(),
                winning_operation,
                our_operation,
            },
        ),
        _ => None,
    }
}

/// The conflict over files, where there is one: the winning commit has deleted some that the
/// transaction adds or deletes.
pub open spec fn file_conflict(
    added: Seq<Seq<char>>,
    removed: Seq<Seq<char>>,
    winning_removed: Seq<Seq<char>>,
) -> Option<ConflictFault> {
    let shared = common_texts(added + removed, winning_removed);
    if shared.len() > 0 {
        Some(ConflictFault::ConcurrentDeleteRead { files: shared })
    } else {
        None
    }
}

impl ConflictChecker {
    pub open spec fn spec_uuid_conflict(self) -> Option<ConflictFault> {
        uuid_conflict(
            self.transaction.read_metadata.table_uuid,
            self.winning_commit.metadata.table_uuid,
        )
    }

    pub open spec fn spec_schema_conflict(self) -> Option<ConflictFault> {
        schema_conflict(
            self.transaction.schema_changes,
            self.winning_commit.schema_changes,
            self.winning_commit.metadata.current_schema_id,
        )
    }

    pub open spec fn spec_partition_conflict(self) -> Option<ConflictFault> {
        partition_conflict(
            key_views(self.transaction.partition_values@),
            key_views(self.winning_commit.partition_values@),
            self.transaction.operation,
            self.winning_commit.operation,
        )
    }

    pub open spec fn spec_file_conflict(self) -> Option<ConflictFault> {
        file_conflict(
            paths(self.transaction.added_files@),
            paths(self.transaction.removed_files@),
            paths(self.winning_commit.removed_files@),
        )
    }

    /// The first conflict: over the table, the schema, partitions, files.
    pub open spec fn first_conflict(self) -> Option<ConflictFault> {
        match self.spec_uuid_conflict() {
            Some(fault) => Some(fault),
            None => match self.spec_schema_conflict() {
                Some(fault) => Some(fault),
                None => match self.spec_partition_conflict() {
                    Some(fault) => Some(fault),
                    None => self.spec_file_conflict(),
                },
            },
        }
    }

    /// Run all conflict checks and return the result.
    pub fn check_conflicts(&self) -> (result: Result<ConflictCheckResult<'_>, ConflictReason>)
        ensures
            match result {
                Ok(outcome) => self.first_conflict() is None && (
                outcome matches ConflictCheckResult::NoConflict { updated_metadata }
                    && *updated_metadata == self.winning_commit.metadata),
                Err(reason) => self.first_conflict() == Some(reason@),
            },
    {
        match self.check_table_uuid() {
            Err(reason) => {
                return Err(reason);
            },
            Ok(_) => {},
        }
        match self.check_schema_compatibility() {
            Err(reason) => {
                return Err(reason);
            },
            Ok(_) => {},
        }
        match self.check_partition_conflicts() {
            Err(reason) => {
                return Err(reason);
            },
            Ok(_) => {},
        }
        match self.check_file_conflicts() {
            Err(reason) => {
                return Err(reason);
            },
            Ok(_) => {},
        }
        Ok(ConflictCheckResult::NoConflict { updated_metadata: &self.winning_commit.metadata })
    }

    pub fn check_table_uuid(&self) -> (result: Result<(), ConflictReason>)
        ensures
            match result {
                Ok(_) => self.spec_uuid_conflict() is None,
                Err(reason) => self.spec_uuid_conflict() == Some(reason@),
            },
    {
        let expected = self.transaction.read_metadata.table_uuid;
        let actual = self.winning_commit.metadata.table_uuid;
        let same = match (expected, actual) {
            (Some(a), Some(b)) => a == b,
            (None, None) => true,
            _ => false,
        };
        if same {
            Ok(())
        } else {
            Err(ConflictReason::TableUuidChanged { expected, actual })
        }
    }

    pub fn check_schema_compatibility(&self) -> (result: Result<(), ConflictReason>)
        ensures
            match result {
                Ok(_) => self.spec_schema_conflict() is None,
                Err(reason) => self.spec_schema_conflict() == Some(reason@),
            },
    {
        let our = match &self.transaction.schema_changes {
            Some(change) => change,
            None => {
                return Ok(());
            },
        };
        let their = match &self.winning_commit.schema_changes {
            Some(change) => change,
            None => {
                let expected = our.old_schema_id;
                let actual = self.winning_commit.metadata.current_schema_id;
                if actual != expected && actual != our.new_schema_id {
                    return Err(ConflictReason::SchemaIdChanged { expected, actual });
                }
                return Ok(());
            },
        };
        if our.type_changes.len() > 0 || their.type_changes.len() > 0 {
            let mut detail = "concurrent type changes (ours=".to_owned();
            detail.append(triples_text(&our.type_changes).as_str());
            detail.append(", winning=");
            detail.append(triples_text(&their.type_changes).as_str());
            detail.append(")");
            return Err(ConflictReason::IncompatibleSchemaChange { detail });
        }
        if our.removed_columns.len() > 0 || their.removed_columns.len() > 0 {
            return Err(
                ConflictReason::IncompatibleSchemaChange {
                    detail: "concurrent column removals".to_owned(),
                },
            );
        }
        let shared = common(&our.added_columns, &their.added_columns);
        assert(texts(shared@).len() == shared@.len());
        if shared.len() > 0 {
            let mut detail = "both transactions added columns ".to_owned();
            detail.append(quoted_list_text(&shared).as_str());
            return Err(ConflictReason::IncompatibleSchemaChange { detail });
        }
        Ok(())
    }

    pub fn check_partition_conflicts(&self) -> (result: Result<(), ConflictReason>)
        ensures
            match result {
                Ok(_) => self.spec_partition_conflict() is None,
                Err(reason) => self.spec_partition_conflict() == Some(reason@),
            },
            result is Err <==> share_a_partition(
                self.transaction.partition_values@,
                self.winning_commit.partition_values@,
            ) && !(self.transaction.operation == Operation::Append && self.winning_commit.operation
                == Operation::Append) && !(self.transaction.operation == Operation::Delete
                && self.winning_commit.operation == Operation::Delete),
    {
        proof {
            law_shared_partitions_conflict(*self);
        }
        let our_operation = self.transaction.operation;
        let winning_operation = self.winning_commit.operation;
        let appends = matches!(our_operation, Operation::Append) && matches!(
            winning_operation,
            Operation::Append
        );
        let deletes = matches!(our_operation, Operation::Delete) && matches!(
            winning_operation,
            Operation::Delete
        );
        if appends || deletes {
            return Ok(());
        }
        let keys = &self.transaction.partition_values;
        let ghost ours = key_views(keys@);
        let ghost theirs = key_views(self.winning_commit.partition_values@);
        assert(ours.skip(0) =~= ours);
        for i in 0..keys.len()
            invariant
                keys == &self.transaction.partition_values,
                ours == key_views(keys@),
                theirs == key_views(self.winning_commit.partition_values@),
                our_operation == self.transaction.operation,
                winning_operation == self.winning_commit.operation,
                !get_along(our_operation, winning_operation),
                first_shared_key(ours, theirs) == first_shared_key(ours.skip(i as int), theirs),
        {
            proof {
                assert(ours.skip(i as int)[0] == keys@[i as int]@);
                assert(ours.skip(i as int).skip(1) =~= ours.skip(i + 1));
            }
            if contains_key(&self.winning_commit.partition_values, &keys[i]) {
                return Err(
                    ConflictReason::ConcurrentOverwrite {
                        partition: keys[i].text(),
                        winning_operation,
                        our_operation,
                    },
                );
            }
        }
        Ok(())
    }

    pub fn check_file_conflicts(&self) -> (result: Result<(), ConflictReason>)
        ensures
            match result {
                Ok(_) => self.spec_file_conflict() is None,
                Err(reason) => self.spec_file_conflict() == Some(reason@),
            },
    {
        let mut our_files: Vec<String> = Vec::new();
        let mut winning_removed: Vec<String> = Vec::new();
        assert(texts(our_files@) =~= Seq::<Seq<char>>::empty());
        add_paths(&mut our_files, &self.transaction.added_files);
        add_paths(&mut our_files, &self.transaction.removed_files);
        add_paths(&mut winning_removed, &self.winning_commit.removed_files);
        assert(texts(our_files@) =~= paths(self.transaction.added_files@) + paths(
            self.transaction.removed_files@,
        ));
        assert(texts(winning_removed@) =~= paths(self.winning_commit.removed_files@));
        let files = common(&our_files, &winning_removed);
        assert(texts(files@).len() == files@.len());
        if files.len() > 0 {
            return Err(ConflictReason::ConcurrentDeleteRead { files });
        }
        Ok(())
    }
}

/// A transaction meets no conflict over files exactly where the winning commit has deleted
/// none that it adds or deletes. In particular no file is deleted twice.
pub proof fn law_no_file_is_deleted_under_a_transaction(checker: ConflictChecker)
    ensures
        checker.spec_file_conflict() is None <==> forall|path: Seq<char>| #[trigger]
            paths(checker.winning_commit.removed_files@).contains(path) ==> !paths(
                checker.transaction.added_files@,
            ).contains(path) && !paths(checker.transaction.removed_files@).contains(path),
{
    let added = paths(checker.transaction.added_files@);
    let removed = paths(checker.transaction.removed_files@);
    let theirs = paths(checker.winning_commit.removed_files@);
    lemma_common_texts(added + removed, theirs);
    let shared = common_texts(added + removed, theirs);
    assert forall|path: Seq<char>| #[trigger]
        (added + removed).contains(path) <==> added.contains(path) || removed.contains(path) by {
        let both = added + removed;
        if added.contains(path) {
            let i = choose|i: int| 0 <= i < added.len() && added[i] == path;
            assert(both[i] == path);
        }
        if removed.contains(path) {
            let i = choose|i: int| 0 <= i < removed.len() && removed[i] == path;
            assert(both[added.len() + i] == path);
        }
        if both.contains(path) {
            let i = choose|i: int| 0 <= i < both.len() && both[i] == path;
            if i < added.len() {
                assert(added[i] == path);
            } else {
                assert(removed[i - added.len()] == path);
            }
        }
    }
    if shared.len() > 0 {
        let path = shared[0];
        assert(shared.contains(path));
        assert((added + removed).contains(path));
        assert(theirs.contains(path));
    } else {
        assert forall|path: Seq<char>| #[trigger] theirs.contains(path) implies !added.contains(
            path,
        ) && !removed.contains(path) by {
            assert(!shared.contains(path));
            assert((added + removed).contains(path) <==> added.contains(path) || removed.contains(
                path,
            ));
        }
    }
}

proof fn lemma_first_shared_key(ours: Seq<PartitionKeyView>, theirs: Seq<PartitionKeyView>)
    ensures
        first_shared_key(ours, theirs) is None <==> forall|i: int|
            0 <= i < ours.len() ==> !theirs.contains(#[trigger] ours[i]),
    decreases ours.len(),
{
    if ours.len() > 0 {
        let rest = ours.skip(1);
        lemma_first_shared_key(rest, theirs);
        if first_shared_key(ours, theirs) is None {
            assert forall|i: int| 0 <= i < ours.len() implies !theirs.contains(
                #[trigger] ours[i],
            ) by {
                if i > 0 {
                    assert(rest[i - 1] == ours[i]);
                }
            }
        } else if forall|i: int| 0 <= i < ours.len() ==> !theirs.contains(#[trigger] ours[i]) {
            assert(!theirs.contains(ours[0]));
            assert forall|i: int| 0 <= i < rest.len() implies !theirs.contains(
                #[trigger] rest[i],
            ) by {
                assert(rest[i] == ours[i + 1]);
            }
        }
    }
}

/// Commits meet no conflict over partitions exactly where they have no partition in common, or
/// both append, or both delete.
pub proof fn law_partition_conflicts(checker: ConflictChecker)
    ensures
        checker.spec_partition_conflict() is None <==> get_along(
            checker.transaction.operation,
            checker.winning_commit.operation,
        ) || (forall|i: int, j: int|
            0 <= i < checker.transaction.partition_values@.len() && 0 <= j
                < checker.winning_commit.partition_values@.len() ==> (
            #[trigger] checker.transaction.partition_values@[i])@ != (
            #[trigger] checker.winning_commit.partition_values@[j])@),
{
    let ours = key_views(checker.transaction.partition_values@);
    let theirs = key_views(checker.winning_commit.partition_values@);
    lemma_first_shared_key(ours, theirs);
    if forall|i: int| 0 <= i < ours.len() ==> !theirs.contains(#[trigger] ours[i]) {
        assert forall|i: int, j: int|
            0 <= i < checker.transaction.partition_values@.len() && 0 <= j
                < checker.winning_commit.partition_values@.len() implies (
        #[trigger] checker.transaction.partition_values@[i])@ != (
        #[trigger] checker.winning_commit.partition_values@[j])@ by {
            assert(!theirs.contains(ours[i]));
            assert(theirs[j] == checker.winning_commit.partition_values@[j]@);
        }
    } else {
        let i = choose|i: int| 0 <= i < ours.len() && theirs.contains(#[trigger] ours[i]);
        let j = choose|j: int| 0 <= j < theirs.len() && theirs[j] == ours[i];
        assert(checker.transaction.partition_values@[i]@ == ours[i]);
        assert(checker.winning_commit.partition_values@[j]@ == theirs[j]);
    }
}

/// Whether two commits have a partition in common.
pub open spec fn share_a_partition(ours: Seq<PartitionKey>, theirs: Seq<PartitionKey>) -> bool {
    exists|i: int, j: int|
        0 <= i < ours.len() && 0 <= j < theirs.len() && (#[trigger] ours[i])@ == (
        #[trigger] theirs[j])@
}

proof fn lemma_first_shared_key_is_shared(
    ours: Seq<PartitionKeyView>,
    theirs: Seq<PartitionKeyView>,
)
    ensures
        first_shared_key(ours, theirs) matches Some(key) ==> ours.contains(key) && theirs.contains(
            key,
        ),
    decreases ours.len(),
{
    if ours.len() > 0 && !theirs.contains(ours[0]) {
        let rest = ours.skip(1);
        lemma_first_shared_key_is_shared(rest, theirs);
        if first_shared_key(rest, theirs) is Some {
            let key = first_shared_key(rest, theirs)->0;
            let i = choose|i: int| 0 <= i < rest.len() && rest[i] == key;
            assert(ours[i + 1] == key);
        }
    }
}

/// On a partition that two commits have in common, only two appends and only two deletes get
/// along: whatever overwrites conflicts with whatever else there is, and so does an append or a
/// replacement with anything but its like. The conflict names both operations, and a partition
/// that both commits have. Commits without a common partition never conflict over partitions.
pub proof fn law_shared_partitions_conflict(checker: ConflictChecker)
    ensures
        ({
            let ours = checker.transaction.partition_values@;
            let theirs = checker.winning_commit.partition_values@;
            let our_operation = checker.transaction.operation;
            let winning_operation = checker.winning_commit.operation;
            let fault = checker.spec_partition_conflict();
            &&& !share_a_partition(ours, theirs) ==> fault is None
            &&& share_a_partition(ours, theirs) ==> (fault is None <==> (our_operation
                == Operation::Append && winning_operation == Operation::Append) || (our_operation
                == Operation::Delete && winning_operation == Operation::Delete))
            &&& share_a_partition(ours, theirs) && (our_operation == Operation::Overwrite
                || winning_operation == Operation::Overwrite) ==> fault is Some
            &&& fault matches Some(f) ==> (f matches ConflictFault::ConcurrentOverwrite {
                partition,
                winning_operation: w,
                our_operation: o,
            } && w == winning_operation && o == our_operation && exists|i: int, j: int|
                0 <= i < ours.len() && 0 <= j < theirs.len() && (#[trigger] ours[i])@ == (
                #[trigger] theirs[j])@ && partition == ours[i]@.text())
        }),
{
    let ours = checker.transaction.partition_values@;
    let theirs = checker.winning_commit.partition_values@;
    let our_keys = key_views(ours);
    let their_keys = key_views(theirs);
    lemma_first_shared_key(our_keys, their_keys);
    lemma_first_shared_key_is_shared(our_keys, their_keys);
    match first_shared_key(our_keys, their_keys) {
        Some(key) => {
            let i = choose|i: int| 0 <= i < our_keys.len() && our_keys[i] == key;
            let j = choose|j: int| 0 <= j < their_keys.len() && their_keys[j] == key;
            assert(ours[i]@ == key && theirs[j]@ == key);
            assert(share_a_partition(ours, theirs));
        },
        None => {
            if share_a_partition(ours, theirs) {
                let (i, j) = choose|i: int, j: int|
                    0 <= i < ours.len() && 0 <= j < theirs.len() && (#[trigger] ours[i])@ == (
                    #[trigger] theirs[j])@;
                assert(!their_keys.contains(our_keys[i]));
                assert(their_keys[j] == our_keys[i]);
            }
        },
    }
}

/// Whether two commits conflict over partitions does not depend on which of them won.
pub proof fn law_partition_conflicts_are_mutual(checker: ConflictChecker, other: ConflictChecker)
    requires
        other.transaction.partition_values@ == checker.winning_commit.partition_values@,
        other.winning_commit.partition_values@ == checker.transaction.partition_values@,
        other.transaction.operation == checker.winning_commit.operation,
        other.winning_commit.operation == checker.transaction.operation,
    ensures
        checker.spec_partition_conflict() is Some <==> other.spec_partition_conflict() is Some,
{
    law_shared_partitions_conflict(checker);
    law_shared_partitions_conflict(other);
    let ours = checker.transaction.partition_values@;
    let theirs = checker.winning_commit.partition_values@;
    if share_a_partition(ours, theirs) {
        let (i, j) = choose|i: int, j: int|
            0 <= i < ours.len() && 0 <= j < theirs.len() && (#[trigger] ours[i])@ == (
            #[trigger] theirs[j])@;
        assert(theirs[j]@ == ours[i]@);
        assert(share_a_partition(theirs, ours));
    }
    if share_a_partition(theirs, ours) {
        let (i, j) = choose|i: int, j: int|
            0 <= i < theirs.len() && 0 <= j < ours.len() && (#[trigger] theirs[i])@ == (
            #[trigger] ours[j])@;
        assert(ours[j]@ == theirs[i]@);
        assert(share_a_partition(ours, theirs));
    }
}

/// A table that was made anew in the meantime is a conflict, before anything else is looked at;
/// one that keeps its identity, or has none all along, is not.
pub proof fn law_recreated_tables_conflict(checker: ConflictChecker)
    ensures
        ({
            let expected = checker.transaction.read_metadata.table_uuid;
            let actual = checker.winning_commit.metadata.table_uuid;
            &&& checker.spec_uuid_conflict() is None <==> expected == actual
            &&& expected != actual ==> checker.first_conflict() == Some(
                ConflictFault::TableUuidChanged { expected, actual },
            )
        }),
{
}

/// Changes of the schema conflict unless they only add columns, and not the same ones. One that
/// no other change met conflicts unless the table has the schema that it started from or leads
/// to. A transaction that leaves the schema alone never conflicts over it.
pub proof fn law_schema_conflicts(checker: ConflictChecker)
    ensures
        ({
            let id = checker.winning_commit.metadata.current_schema_id;
            let fault = checker.spec_schema_conflict();
            match (checker.transaction.schema_changes, checker.winning_commit.schema_changes) {
                (None, _) => fault is None,
                (Some(our), None) => {
                    &&& fault is None <==> id == our.old_schema_id || id == our.new_schema_id
                    &&& fault is Some ==> fault == Some(
                        ConflictFault::SchemaIdChanged { expected: our.old_schema_id, actual: id },
                    )
                },
                (Some(our), Some(their)) => {
                    &&& fault is None <==> our.type_changes@.len() == 0 && their.type_changes@.len()
                        == 0 && our.removed_columns@.len() == 0 && their.removed_columns@.len() == 0
                        && forall|i: int, j: int|
                        0 <= i < our.added_columns@.len() && 0 <= j < their.added_columns@.len()
                            ==> (#[trigger] our.added_columns@[i])@ != (
                        #[trigger] their.added_columns@[j])@
                    &&& fault matches Some(f) ==> f is IncompatibleSchemaChange
                },
            }
        }),
{
    match (checker.transaction.schema_changes, checker.winning_commit.schema_changes) {
        (Some(our), Some(their)) => {
            let ours = texts(our.added_columns@);
            let theirs = texts(their.added_columns@);
            let shared = common_texts(ours, theirs);
            lemma_common_texts(ours, theirs);
            if shared.len() > 0 {
                let name = shared[0];
                assert(shared.contains(name));
                let i = choose|i: int| 0 <= i < ours.len() && ours[i] == name;
                let j = choose|j: int| 0 <= j < theirs.len() && theirs[j] == name;
                assert(our.added_columns@[i]@ == their.added_columns@[j]@);
            } else {
                assert forall|i: int, j: int|
                    0 <= i < our.added_columns@.len() && 0 <= j < their.added_columns@.len() implies (
                #[trigger] our.added_columns@[i])@ != (#[trigger] their.added_columns@[j])@ by {
                    if our.added_columns@[i]@ == their.added_columns@[j]@ {
                        assert(ours[i] == theirs[j]);
                        assert(ours.contains(ours[i]) && theirs.contains(ours[i]));
                        assert(shared.contains(ours[i]));
                    }
                }
            }
        },
        _ => {},
    }
}

/// A transaction goes ahead only where nothing conflicts: not the table, not the schema, not a
/// partition, not a file. Where several do, the first of these is what it fails with.
pub proof fn law_no_conflict_is_passed_over(checker: ConflictChecker)
    ensures
        checker.first_conflict() is None <==> checker.spec_uuid_conflict() is None
            && checker.spec_schema_conflict() is None && checker.spec_partition_conflict() is None
            && checker.spec_file_conflict() is None,
        checker.spec_uuid_conflict() is None && checker.spec_schema_conflict() is Some
            ==> checker.first_conflict() == checker.spec_schema_conflict(),
        checker.spec_uuid_conflict() is None && checker.spec_schema_conflict() is None
            && checker.spec_partition_conflict() is Some ==> checker.first_conflict()
            == checker.spec_partition_conflict(),
        checker.spec_uuid_conflict() is None && checker.spec_schema_conflict() is None
            && checker.spec_partition_conflict() is None ==> checker.first_conflict()
            == checker.spec_file_conflict(),
        checker.spec_file_conflict() matches Some(f) ==> (
        f matches ConflictFault::ConcurrentDeleteRead { files } && files.no_duplicates()
            && forall|path: Seq<char>| #[trigger]
            files.contains(path) <==> paths(checker.winning_commit.removed_files@).contains(path)
                && (paths(checker.transaction.added_files@) + paths(
                checker.transaction.removed_files@,
            )).contains(path)),
{
    lemma_common_texts(
        paths(checker.transaction.added_files@) + paths(checker.transaction.removed_files@),
        paths(checker.winning_commit.removed_files@),
    );
}

/// The partitions of a transaction are those of its files, each once: a partition is among them
/// exactly where some file is in it.
pub proof fn law_partitions_are_those_of_the_files(files: Seq<DataFile>, spec: PartitionSpec)
    ensures
        partition_keys(files, spec).no_duplicates(),
        forall|key: PartitionKeyView| #[trigger]
            partition_keys(files, spec).contains(key) <==> exists|i: int|
                0 <= i < files.len() && key_of(#[trigger] files[i], spec) == key,
    decreases files.len(),
{
    if files.len() > 0 {
        let (init, last) = (files.drop_last(), files.last());
        law_partitions_are_those_of_the_files(init, spec);
        let before = partition_keys(init, spec);
        let after = partition_keys(files, spec);
        assert forall|key: PartitionKeyView| #[trigger] after.contains(key) <==> exists|i: int|
            0 <= i < files.len() && key_of(#[trigger] files[i], spec) == key by {
            if after.contains(key) {
                let k = choose|k: int| 0 <= k < after.len() && after[k] == key;
                if k < before.len() {
                    assert(before[k] == key);
                    assert(before.contains(key));
                    let i = choose|i: int|
                        0 <= i < init.len() && key_of(#[trigger] init[i], spec) == key;
                    assert(key_of(files[i], spec) == key);
                } else {
                    assert(key_of(files[files.len() - 1], spec) == key);
                }
            }
            if exists|i: int| 0 <= i < files.len() && key_of(#[trigger] files[i], spec) == key {
                let i = choose|i: int|
                    0 <= i < files.len() && key_of(#[trigger] files[i], spec) == key;
                if i < init.len() {
                    assert(key_of(init[i], spec) == key);
                    assert(before.contains(key));
                }
                if before.contains(key) {
                    let k = choose|k: int| 0 <= k < before.len() && before[k] == key;
                    assert(after[k] == key);
                } else {
                    assert(after[before.len() as int] == key);
                }
            }
        }
    }
}

/// Two files with a value for every field of the partition spec have the same key exactly where
/// their values agree, field by field.
pub proof fn law_keys_tell_partitions_apart(a: DataFile, b: DataFile, spec: PartitionSpec)
    requires
        a.partition@.len() >= spec.fields@.len(),
        b.partition@.len() >= spec.fields@.len(),
    ensures
        key_of(a, spec) == key_of(b, spec) <==> forall|i: int|
            0 <= i < spec.fields@.len() ==> (#[trigger] a.partition@[i])@ == b.partition@[i]@,
        key_of(a, spec).spec_id == spec.spec_id,
{
    let (x, y) = (key_of(a, spec), key_of(b, spec));
    if x == y {
        assert forall|i: int| 0 <= i < spec.fields@.len() implies (#[trigger] a.partition@[i])@
            == b.partition@[i]@ by {
            assert(x.values[i] == y.values[i]);
        }
    }
    if forall|i: int|
        0 <= i < spec.fields@.len() ==> (#[trigger] a.partition@[i])@ == b.partition@[i]@ {
        assert(x.values =~= y.values);
    }
}

/// A transaction that goes ahead meets the table that it has read: the same one, with no partition
/// in common that either has overwritten, and without a file that was deleted in the meantime. It
/// goes on with the metadata of the commit that won.
pub proof fn law_checked_transactions_meet_no_conflict<'a>(
    checker: ConflictChecker,
    result: Result<ConflictCheckResult<'a>, ConflictReason>,
    i: int,
    j: int,
)
    requires
        call_ensures(ConflictChecker::check_conflicts, (&checker,), result),
    ensures
        checker.transaction.read_metadata.table_uuid != checker.winning_commit.metadata.table_uuid
            ==> result is Err,
        share_a_partition(
            checker.transaction.partition_values@,
            checker.winning_commit.partition_values@,
        ) && (checker.transaction.operation == Operation::Overwrite
            || checker.winning_commit.operation == Operation::Overwrite) ==> result is Err,
        0 <= i < checker.winning_commit.removed_files@.len() && ((0 <= j
            < checker.transaction.removed_files@.len()
            && checker.transaction.removed_files@[j].file_path@
            == checker.winning_commit.removed_files@[i].file_path@) || (0 <= j
            < checker.transaction.added_files@.len()
            && checker.transaction.added_files@[j].file_path@
            == checker.winning_commit.removed_files@[i].file_path@)) ==> result is Err,
        result matches Ok(ConflictCheckResult::NoConflict { updated_metadata }) ==> *updated_metadata
            == checker.winning_commit.metadata,
{
    law_recreated_tables_conflict(checker);
    law_no_conflict_is_passed_over(checker);
    law_shared_partitions_conflict(checker);
    law_no_file_is_deleted_under_a_transaction(checker);
    let theirs = paths(checker.winning_commit.removed_files@);
    let added = paths(checker.transaction.added_files@);
    let removed = paths(checker.transaction.removed_files@);
    if 0 <= i < theirs.len() {
        assert(theirs.contains(theirs[i]));
        if 0 <= j < removed.len() && removed[j] == theirs[i] {
            assert(removed.contains(theirs[i]));
        }
        if 0 <= j < added.len() && added[j] == theirs[i] {
            assert(added.contains(theirs[i]));
        }
    }
}

} // verus!

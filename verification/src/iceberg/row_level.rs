//! Deleting, updating and merging rows of a table.

use vstd::prelude::*;
use vstd::string::*;

use crate::affix::eq_ignore_case;
use crate::iceberg::columns::{find_column, MERGE_FILE_COLUMN};
use crate::iceberg::commit::parents::contains_text;
use crate::iceberg::load::SnapshotUpdateKind;
use crate::iceberg::table::{Operation, TableMetadata};
use crate::ordered::sort_texts;

verus! {

use crate::affix::folded_text;
use crate::assoc::value_of;
use crate::iceberg::columns::{column_position, law_column_positions, projection_view};
use crate::iceberg::contents::texts;
use crate::ordered::texts_ordered;

/// What is done to rows.
#[derive(Debug, Clone, Copy, PartialEq, Eq, Structural)]
pub enum RowLevelCommand {
    Delete,
    Merge,
    Update,
}

/// The name of a command.
pub open spec fn command_name(command: RowLevelCommand) -> Seq<char> {
    match command {
        RowLevelCommand::Delete => "DELETE"@,
        RowLevelCommand::Merge => "MERGE"@,
        RowLevelCommand::Update => "UPDATE"@,
    }
}

/// The property that says how a command works.
pub open spec fn mode_property(command: RowLevelCommand) -> Seq<char> {
    match command {
        RowLevelCommand::Delete => "write.delete.mode"@,
        RowLevelCommand::Merge => "write.merge.mode"@,
        RowLevelCommand::Update => "write.update.mode"@,
    }
}

impl RowLevelCommand {
    fn name(self) -> (name: &'static str)
        ensures
            name@ == command_name(self),
    {
        match self {
            RowLevelCommand::Delete => "DELETE",
            RowLevelCommand::Merge => "MERGE",
            RowLevelCommand::Update => "UPDATE",
        }
    }

    fn property(self) -> (property: &'static str)
        ensures
            property@ == mode_property(self),
    {
        match self {
            RowLevelCommand::Delete => "write.delete.mode",
            RowLevelCommand::Merge => "write.merge.mode",
            RowLevelCommand::Update => "write.update.mode",
        }
    }
}

/// Why a command is not carried out.
#[derive(Debug)]
pub enum RowLevelError {
    /// The table wants its files copied.
    CopyOnWrite { command: RowLevelCommand },
    /// The table wants something unknown.
    UnknownMode { command: RowLevelCommand, mode: String },
    MissingInput { command: RowLevelCommand },
    MissingTouchedFiles { command: RowLevelCommand },
    MissingSchema,
    NoCurrentSchema,
    MissingFileColumn,
}

impl RowLevelError {
    pub open spec fn spec_message(self) -> Seq<char> {
        match self {
            RowLevelError::CopyOnWrite { command } => "Iceberg "@ + command_name(command)
                + " with `"@ + mode_property(command)
                + "=copy-on-write` is not supported yet; set `"@ + mode_property(command)
                + "=merge-on-read`"@,
            RowLevelError::UnknownMode { command, mode } => {
                "Unknown Iceberg row-level operation mode for `"@ + mode_property(command) + "`: "@
                    + mode@ + "; expected `copy-on-write` or `merge-on-read`"@
            },
            RowLevelError::MissingInput { command } => "Iceberg "@ + command_name(command)
                + " missing write plan input"@,
            RowLevelError::MissingTouchedFiles { command } => "Iceberg "@ + command_name(command)
                + " missing touched-file plan input"@,
            RowLevelError::MissingSchema => "Iceberg table metadata is missing current schema"@,
            RowLevelError::NoCurrentSchema => "Table has no current schema"@,
            RowLevelError::MissingFileColumn => "write_plan missing __sail_file_path column"@,
        }
    }

    pub fn message(&self) -> (text: String)
        ensures
            text@ == self.spec_message(),
    {
        match self {
            RowLevelError::CopyOnWrite { command } => {
                let mut text = "Iceberg ".to_owned();
                text.append(command.name());
                text.append(" with `");
                text.append(command.property());
                text.append("=copy-on-write` is not supported yet; set `");
                text.append(command.property());
                text.append("=merge-on-read`");
                text
            },
            RowLevelError::UnknownMode { command, mode } => {
                let mut text = "Unknown Iceberg row-level operation mode for `".to_owned();
                text.append(command.property());
                text.append("`: ");
                text.append(mode.as_str());
                text.append("; expected `copy-on-write` or `merge-on-read`");
                text
            },
            RowLevelError::MissingInput { command } => {
                let mut text = "Iceberg ".to_owned();
                text.append(command.name());
                text.append(" missing write plan input");
                text
            },
            RowLevelError::MissingTouchedFiles { command } => {
                let mut text = "Iceberg ".to_owned();
                text.append(command.name());
                text.append(" missing touched-file plan input");
                text
            },
            RowLevelError::MissingSchema => {
                "Iceberg table metadata is missing current schema".to_owned()
            },
            RowLevelError::NoCurrentSchema => "Table has no current schema".to_owned(),
            RowLevelError::MissingFileColumn => {
                "write_plan missing __sail_file_path column".to_owned()
            },
        }
    }
}

/// How a table wants a command to work. Unless it says so, it wants its files copied.
pub open spec fn row_level_mode(metadata: TableMetadata, command: RowLevelCommand) -> Seq<char> {
    match value_of(metadata.properties@, mode_property(command)) {
        Some(mode) => mode@,
        None => "copy-on-write"@,
    }
}

/// Whether a mode is the named one, without regard to case.
pub open spec fn mode_is(mode: Seq<char>, name: Seq<char>) -> bool {
    folded_text(mode) == folded_text(name)
}

/// Checks that the table wants deletes to be merged when it is read: nothing else is
/// supported.
pub fn ensure_current_row_level_mode(metadata: &TableMetadata, command: RowLevelCommand) -> (outcome:
    Result<(), RowLevelError>)
    ensures
        ({
            let mode = row_level_mode(*metadata, command);
            match outcome {
                Ok(_) => mode_is(mode, "merge-on-read"@),
                Err(RowLevelError::CopyOnWrite { command: c }) => !mode_is(mode, "merge-on-read"@)
                    && mode_is(mode, "copy-on-write"@) && c == command,
                Err(RowLevelError::UnknownMode { command: c, mode: m }) => !mode_is(
                    mode,
                    "merge-on-read"@,
                ) && !mode_is(mode, "copy-on-write"@) && c == command && m@ == mode,
                _ => false,
            }
        }),
{
    let mode = match metadata.properties.get(command.property()) {
        Some(mode) => mode.clone(),
        None => "copy-on-write".to_owned(),
    };
    if eq_ignore_case(mode.as_str(), "merge-on-read") {
        Ok(())
    } else if eq_ignore_case(mode.as_str(), "copy-on-write") {
        Err(RowLevelError::CopyOnWrite { command })
    } else {
        Err(RowLevelError::UnknownMode { command, mode })
    }
}

/// Checks the inputs of a command that writes rows: there is one for the rows and, where the
/// touched files are to be found, another for them.
pub fn check_inputs(command: RowLevelCommand, inputs: usize, finds_touched_files: bool) -> (outcome:
    Result<(), RowLevelError>)
    ensures
        outcome == (if inputs == 0 {
            Err(RowLevelError::MissingInput { command })
        } else if finds_touched_files && inputs < 2 {
            Err(RowLevelError::MissingTouchedFiles { command })
        } else {
            Ok(())
        }),
{
    if inputs == 0 {
        Err(RowLevelError::MissingInput { command })
    } else if finds_touched_files && inputs < 2 {
        Err(RowLevelError::MissingTouchedFiles { command })
    } else {
        Ok(())
    }
}

/// The location of the metadata that a table is loaded from: that of the catalog where the
/// catalog manages the table, and otherwise what is found in storage.
pub fn location_for_load(catalog_managed: bool, location: Option<String>) -> (loaded: Option<String>)
    ensures
        loaded == (if catalog_managed {
            location
        } else {
            None
        }),
{
    if catalog_managed {
        location
    } else {
        None
    }
}

/// How a delete is carried out.
#[derive(Debug, Clone, Copy, PartialEq, Eq, Structural)]
pub enum DeletePlan {
    /// There is nothing to delete: nothing is committed, and no rows are reported.
    Nothing,
    /// All rows go: an empty snapshot takes the place of the current one.
    Truncate,
    /// The rows that do not match stay.
    KeepSurvivors,
}

/// How a delete is carried out. A table without a snapshot has nothing to delete, even where it
/// has no schema.
pub fn plan_delete(metadata: &TableMetadata, has_condition: bool) -> (plan: Result<
    DeletePlan,
    RowLevelError,
>)
    ensures
        plan == (if metadata.current_position() is None {
            Ok(DeletePlan::Nothing)
        } else if metadata.current_schema_position() is None {
            Err(RowLevelError::NoCurrentSchema)
        } else if !has_condition {
            Ok(DeletePlan::Truncate)
        } else {
            Ok(DeletePlan::KeepSurvivors)
        }),
{
    if metadata.current_snapshot().is_none() {
        return Ok(DeletePlan::Nothing);
    }
    if metadata.current_schema_index().is_none() {
        return Err(RowLevelError::NoCurrentSchema);
    }
    if !has_condition {
        Ok(DeletePlan::Truncate)
    } else {
        Ok(DeletePlan::KeepSurvivors)
    }
}

impl DeletePlan {
    /// How the rows of a delete are written, where anything is: they take the place of all that
    /// the table has, and are counted as they are written.
    pub fn write_plan(self) -> (plan: Option<RowWritePlan>)
        ensures
            match self {
                DeletePlan::Nothing => plan is None,
                _ => plan matches Some(p) && p.operation is Delete && !p.targeted
                    && p.touched_file_paths@.len() == 0 && p.reported_row_count is None,
            },
    {
        match self {
            DeletePlan::Nothing => None,
            _ => Some(
                RowWritePlan {
                    operation: Operation::Delete,
                    targeted: false,
                    touched_file_paths: Vec::new(),
                    reported_row_count: None,
                },
            ),
        }
    }
}

/// How a table is truncated.
#[derive(Debug, Clone, Copy, PartialEq, Eq, Structural)]
pub struct TruncatePlan {
    /// Whether an empty snapshot is written.
    pub writes: bool,
    pub update_kind: SnapshotUpdateKind,
}

/// Plans `TRUNCATE TABLE` (and conditionless `DELETE`).
///
/// - A table that was created but never written (no current snapshot) has nothing to delete:
///   an empty input commits nothing and the commit reports `count = 0`.
/// - Otherwise all rows are dropped by committing an **empty full overwrite**: the writer
///   emits a report with no data files and `FullOverwrite` drops every parent manifest, leaving
///   an empty snapshot.
pub fn plan_truncate(metadata: &TableMetadata) -> (plan: Result<TruncatePlan, RowLevelError>)
    ensures
        plan == (if metadata.current_schema_position() is None {
            Err(RowLevelError::MissingSchema)
        } else if metadata.current_position() is None {
            Ok(TruncatePlan { writes: false, update_kind: SnapshotUpdateKind::FastAppend })
        } else {
            Ok(TruncatePlan { writes: true, update_kind: SnapshotUpdateKind::FullOverwrite })
        }),
{
    if metadata.current_schema_index().is_none() {
        return Err(RowLevelError::MissingSchema);
    }
    if metadata.current_snapshot().is_none() {
        Ok(TruncatePlan { writes: false, update_kind: SnapshotUpdateKind::FastAppend })
    } else {
        Ok(TruncatePlan { writes: true, update_kind: SnapshotUpdateKind::FullOverwrite })
    }
}

/// How the outcome of a command takes part in the table.
#[derive(Debug, Clone, Copy, PartialEq, Eq, Structural)]
pub struct RowLevelCommit {
    pub update_kind: SnapshotUpdateKind,
    /// The snapshot that the table must still have, or that it has none, where that matters.
    pub expected_snapshot_id: Option<Option<i64>>,
}

/// Whether an error says what is wrong with the mode that a table wants a command to work in, where
/// deletes are not merged when it is read.
pub open spec fn mode_fault(
    metadata: TableMetadata,
    command: RowLevelCommand,
    error: RowLevelError,
) -> bool {
    let mode = row_level_mode(metadata, command);
    match error {
        RowLevelError::CopyOnWrite { command: c } => mode_is(mode, "copy-on-write"@) && c
            == command,
        RowLevelError::UnknownMode { command: c, mode: m } => !mode_is(mode, "copy-on-write"@) && c
            == command && m@ == mode,
        _ => false,
    }
}

/// How a command takes part in the table. Merges, updates and deletes with a condition add to the
/// rows and the deletes that there are, on the snapshot that the command was planned for, and
/// only where the table wants deletes to be merged when it is read. A delete without a condition
/// truncates: it replaces all that there is, or commits nothing where there is nothing.
pub fn plan_row_level_commit(
    metadata: &TableMetadata,
    command: RowLevelCommand,
    has_condition: bool,
    expected_snapshot_id: Option<Option<i64>>,
) -> (commit: Result<RowLevelCommit, RowLevelError>)
    ensures
        if command is Delete && !has_condition {
            commit == (if metadata.current_schema_position() is None {
                Err(RowLevelError::MissingSchema)
            } else if metadata.current_position() is None {
                Ok(
                    RowLevelCommit {
                        update_kind: SnapshotUpdateKind::FastAppend,
                        expected_snapshot_id: None,
                    },
                )
            } else {
                Ok(
                    RowLevelCommit {
                        update_kind: SnapshotUpdateKind::FullOverwrite,
                        expected_snapshot_id,
                    },
                )
            })
        } else if !mode_is(row_level_mode(*metadata, command), "merge-on-read"@) {
            commit matches Err(e) && mode_fault(*metadata, command, e)
        } else if !(command is Merge) && metadata.current_schema_position() is None {
            commit == Err::<RowLevelCommit, _>(RowLevelError::MissingSchema)
        } else {
            commit == Ok::<_, RowLevelError>(
                RowLevelCommit {
                    update_kind: SnapshotUpdateKind::RowDelta,
                    expected_snapshot_id,
                },
            )
        },
{
    if matches!(command, RowLevelCommand::Delete) && !has_condition {
        return match plan_truncate(metadata) {
            Ok(plan) => Ok(
                RowLevelCommit {
                    update_kind: plan.update_kind,
                    expected_snapshot_id: if plan.writes {
                        expected_snapshot_id
                    } else {
                        None
                    },
                },
            ),
            Err(e) => Err(e),
        };
    }
    match ensure_current_row_level_mode(metadata, command) {
        Ok(()) => {},
        Err(e) => {
            return Err(e);
        },
    }
    if !matches!(command, RowLevelCommand::Merge) && metadata.current_schema_index().is_none() {
        return Err(RowLevelError::MissingSchema);
    }
    Ok(RowLevelCommit { update_kind: SnapshotUpdateKind::RowDelta, expected_snapshot_id })
}

/// How rows are written.
#[derive(Debug)]
pub struct RowWritePlan {
    pub operation: Operation,
    /// Whether rows of touched files are told from those of others.
    pub targeted: bool,
    pub touched_file_paths: Vec<String>,
    /// The rows to report, unless they are counted as they are written.
    pub reported_row_count: Option<u64>,
}

/// How a merge writes its rows. Where it only inserts, or touches no file, all rows are new. See
/// [`merge_rows`] for the rows that are handed on.
pub fn plan_merge(
    metadata: &TableMetadata,
    is_insert_only: bool,
    touched_file_paths: Vec<String>,
) -> (plan: Result<RowWritePlan, RowLevelError>)
    ensures
        match plan {
            Err(e) => metadata.current_schema_position() is None && e
                == RowLevelError::NoCurrentSchema,
            Ok(p) => {
                &&& metadata.current_schema_position() is Some
                &&& p.reported_row_count is None
                &&& if is_insert_only || touched_file_paths@.len() == 0 {
                    p.operation is Append && !p.targeted && p.touched_file_paths@.len() == 0
                } else {
                    p.operation is Overwrite && p.targeted && p.touched_file_paths
                        == touched_file_paths
                }
            },
        },
{
    if metadata.current_schema_index().is_none() {
        return Err(RowLevelError::NoCurrentSchema);
    }
    if is_insert_only || touched_file_paths.len() == 0 {
        Ok(
            RowWritePlan {
                operation: Operation::Append,
                targeted: false,
                touched_file_paths: Vec::new(),
                reported_row_count: None,
            },
        )
    } else {
        Ok(
            RowWritePlan {
                operation: Operation::Overwrite,
                targeted: true,
                touched_file_paths,
                reported_row_count: None,
            },
        )
    }
}

/// How an update writes its rows: only touched files are rewritten, and the others stay in the
/// parent manifests. Where it touches none, no row has changed: all rows are written again
/// unchanged, and take the place of the former ones. See [`update_rows`] for the rows that are
/// handed on.
pub fn plan_update(
    metadata: &TableMetadata,
    touched_file_paths: Vec<String>,
    matched_row_count: u64,
) -> (plan: Result<RowWritePlan, RowLevelError>)
    ensures
        match plan {
            Err(e) => metadata.current_schema_position() is None && e
                == RowLevelError::NoCurrentSchema,
            Ok(p) => {
                &&& metadata.current_schema_position() is Some
                &&& p.operation is Overwrite
                &&& p.targeted <==> touched_file_paths@.len() > 0
                &&& p.touched_file_paths == touched_file_paths
                &&& p.reported_row_count == Some(
                    if touched_file_paths@.len() == 0 {
                        0
                    } else {
                        matched_row_count
                    },
                )
            },
        },
{
    if metadata.current_schema_index().is_none() {
        return Err(RowLevelError::NoCurrentSchema);
    }
    let targeted = touched_file_paths.len() > 0;
    Ok(
        RowWritePlan {
            operation: Operation::Overwrite,
            targeted,
            touched_file_paths,
            reported_row_count: Some(
                if targeted {
                    matched_row_count
                } else {
                    0
                },
            ),
        },
    )
}

/// Whether the writer of an update gets a row of the given file: one of a touched file, or any
/// where the rows of touched files are not told from others.
pub open spec fn is_rewritten_row(plan: RowWritePlan, file: Option<Seq<char>>) -> bool {
    plan.targeted ==> (file matches Some(path) && texts(plan.touched_file_paths@).contains(path))
}

/// The file of each row, by its path.
pub open spec fn row_files(files: Seq<Option<String>>) -> Seq<Option<Seq<char>>> {
    files.map_values(
        |file: Option<String>|
            match file {
                Some(path) => Some(path@),
                None => None,
            },
    )
}

/// The positions of the rows that an update hands to the writer, in order, given the file that
/// each row comes from: of a plan that tells touched files from others exactly the rows of
/// touched files, and otherwise all rows.
pub fn update_rows(plan: &RowWritePlan, files: &Vec<Option<String>>) -> (rows: Vec<usize>)
    ensures
        forall|i: int, j: int|
            0 <= i < j < rows@.len() ==> #[trigger] rows@[i] < #[trigger] rows@[j],
        forall|k: usize| #[trigger]
            rows@.contains(k) <==> k < files@.len() && is_rewritten_row(
                *plan,
                row_files(files@)[k as int],
            ),
{
    let mut rows: Vec<usize> = Vec::new();
    for n in 0..files.len()
        invariant
            forall|i: int, j: int|
                0 <= i < j < rows@.len() ==> #[trigger] rows@[i] < #[trigger] rows@[j],
            forall|i: int| 0 <= i < rows@.len() ==> #[trigger] rows@[i] < n,
            forall|k: usize| #[trigger]
                rows@.contains(k) <==> k < n && is_rewritten_row(
                    *plan,
                    row_files(files@)[k as int],
                ),
    {
        let ghost before = rows@;
        let wanted = if plan.targeted {
            match &files[n] {
                Some(path) => contains_text(&plan.touched_file_paths, path),
                None => false,
            }
        } else {
            true
        };
        assert(wanted == is_rewritten_row(*plan, row_files(files@)[n as int]));
        if wanted {
            rows.push(n);
        }
        proof {
            assert forall|k: usize| #[trigger] rows@.contains(k) <==> k < n + 1
                && is_rewritten_row(*plan, row_files(files@)[k as int]) by {
                if before.contains(k) {
                    let i = choose|i: int| 0 <= i < before.len() && before[i] == k;
                    assert(rows@[i] == k);
                }
                if wanted {
                    assert(rows@[before.len() as int] == n);
                }
                if rows@.contains(k) && k != n {
                    let i = choose|i: int| 0 <= i < rows@.len() && rows@[i] == k;
                    assert(before[i] == k);
                }
            }
        }
    }
    rows
}

/// Whether the writer of a merge gets a row of the given file: one that comes from a file,
/// touched or not, or any where the rows of touched files are not told from others.
pub open spec fn is_merged_row(plan: RowWritePlan, file: Option<Seq<char>>) -> bool {
    plan.targeted ==> file is Some
}

/// The positions of the rows that a merge hands to the writer, in order, given the file that each
/// row comes from: of a plan that tells touched files from others exactly the rows that come from
/// a file, and otherwise all rows.
pub fn merge_rows(plan: &RowWritePlan, files: &Vec<Option<String>>) -> (rows: Vec<usize>)
    ensures
        forall|i: int, j: int|
            0 <= i < j < rows@.len() ==> #[trigger] rows@[i] < #[trigger] rows@[j],
        forall|k: usize| #[trigger]
            rows@.contains(k) <==> k < files@.len() && is_merged_row(
                *plan,
                row_files(files@)[k as int],
            ),
{
    let mut rows: Vec<usize> = Vec::new();
    for n in 0..files.len()
        invariant
            forall|i: int, j: int|
                0 <= i < j < rows@.len() ==> #[trigger] rows@[i] < #[trigger] rows@[j],
            forall|i: int| 0 <= i < rows@.len() ==> #[trigger] rows@[i] < n,
            forall|k: usize| #[trigger]
                rows@.contains(k) <==> k < n && is_merged_row(*plan, row_files(files@)[k as int]),
    {
        let ghost before = rows@;
        let wanted = !plan.targeted || files[n].is_some();
        assert(wanted == is_merged_row(*plan, row_files(files@)[n as int]));
        if wanted {
            rows.push(n);
        }
        proof {
            assert forall|k: usize| #[trigger] rows@.contains(k) <==> k < n + 1 && is_merged_row(
                *plan,
                row_files(files@)[k as int],
            ) by {
                if before.contains(k) {
                    let i = choose|i: int| 0 <= i < before.len() && before[i] == k;
                    assert(rows@[i] == k);
                }
                if wanted {
                    assert(rows@[before.len() as int] == n);
                }
                if rows@.contains(k) && k != n {
                    let i = choose|i: int| 0 <= i < rows@.len() && rows@[i] == k;
                    assert(before[i] == k);
                }
            }
        }
    }
    rows
}

/// The values of several batches, in order.
pub open spec fn all_values(batches: Seq<Vec<String>>) -> Seq<Seq<char>>
    decreases batches.len(),
{
    if batches.len() == 0 {
        Seq::empty()
    } else {
        all_values(batches.drop_last()) + texts(batches.last()@)
    }
}

proof fn lemma_values_grow(batches: Seq<Vec<String>>, n: int)
    requires
        0 <= n <= batches.len(),
    ensures
        all_values(batches.take(n)).len() <= all_values(batches).len(),
    decreases batches.len() - n,
{
    if n < batches.len() {
        lemma_values_grow(batches, n + 1);
        assert(batches.take(n + 1).drop_last() =~= batches.take(n));
    } else {
        assert(batches.take(n) =~= batches);
    }
}

/// Texts that are the same, each as often as it occurs, are all different where the others
/// are, and contain the same texts.
proof fn lemma_same_texts(a: Seq<Seq<char>>, b: Seq<Seq<char>>)
    requires
        a.to_multiset() == b.to_multiset(),
        b.no_duplicates(),
    ensures
        a.no_duplicates(),
        forall|text: Seq<char>| #[trigger] a.contains(text) <==> b.contains(text),
{
    broadcast use vstd::seq_lib::group_to_multiset_ensures;

    b.lemma_multiset_has_no_duplicates();
    a.lemma_multiset_has_no_duplicates_conv();
    assert forall|text: Seq<char>| #[trigger] a.contains(text) <==> b.contains(text) by {
        assert(a.to_multiset().count(text) > 0 <==> a.contains(text));
        assert(b.to_multiset().count(text) > 0 <==> b.contains(text));
    }
}

/// The files that rows to be changed come from, each once, in order; and the number of those
/// rows. A row without a file counts, too.
pub fn collect_touched_file_paths(batches: &Vec<Vec<String>>) -> (touched: (Vec<String>, u64))
    requires
        all_values(batches@).len() <= u64::MAX,
    ensures
        forall|path: Seq<char>| #[trigger]
            texts(touched.0@).contains(path) <==> path.len() > 0 && all_values(batches@).contains(
                path,
            ),
        texts(touched.0@).no_duplicates(),
        texts_ordered(texts(touched.0@)),
        touched.1 == all_values(batches@).len(),
{
    let mut paths: Vec<String> = Vec::new();
    let mut matched: u64 = 0;
    assert(texts(paths@) =~= Seq::<Seq<char>>::empty());
    for b in 0..batches.len()
        invariant
            all_values(batches@).len() <= u64::MAX,
            matched == all_values(batches@.take(b as int)).len(),
            texts(paths@).no_duplicates(),
            forall|path: Seq<char>| #[trigger]
                texts(paths@).contains(path) <==> path.len() > 0 && all_values(
                    batches@.take(b as int),
                ).contains(path),
    {
        let batch = &batches[b];
        let ghost before = all_values(batches@.take(b as int));
        let ghost values = texts(batch@);
        proof {
            assert(batches@.take(b + 1).drop_last() =~= batches@.take(b as int));
            lemma_values_grow(batches@, b + 1);
            assert(before + values.take(0) =~= before);
            assert(values.len() == batch@.len());
        }
        matched = matched + (batch.len() as u64);
        for i in 0..batch.len()
            invariant
                values == texts(batch@),
                texts(paths@).no_duplicates(),
                forall|path: Seq<char>| #[trigger]
                    texts(paths@).contains(path) <==> path.len() > 0 && (before + values.take(
                        i as int,
                    )).contains(path),
        {
            let ghost seen = before + values.take(i as int);
            let ghost longer = before + values.take(i + 1);
            let ghost had = texts(paths@);
            let ghost value = batch@[i as int]@;
            proof {
                assert(longer =~= seen.push(value));
            }
            if batch[i].as_str().unicode_len() > 0 && !contains_text(&paths, &batch[i]) {
                paths.push(batch[i].clone());
                assert(texts(paths@) =~= had.push(value));
            }
            proof {
                let now = texts(paths@);
                assert forall|path: Seq<char>| #[trigger]
                    now.contains(path) <==> path.len() > 0 && longer.contains(path) by {
                    if longer.contains(path) {
                        let k = choose|k: int| 0 <= k < longer.len() && longer[k] == path;
                        if k < seen.len() {
                            assert(seen[k] == path);
                            assert(seen.contains(path));
                        }
                    }
                    if seen.contains(path) {
                        let k = choose|k: int| 0 <= k < seen.len() && seen[k] == path;
                        assert(longer[k] == path);
                    }
                    assert(longer[seen.len() as int] == value);
                    if had.contains(path) {
                        let k = choose|k: int| 0 <= k < had.len() && had[k] == path;
                        assert(now[k] == path);
                    }
                    if now.contains(path) && !had.contains(path) {
                        let k = choose|k: int| 0 <= k < now.len() && now[k] == path;
                        if k < had.len() {
                            assert(had[k] == path);
                        }
                    }
                    if now.len() > had.len() {
                        assert(now[had.len() as int] == value);
                    }
                }
            }
        }
        assert(values.take(values.len() as int) =~= values);
    }
    assert(batches@.take(batches@.len() as int) =~= batches@);
    let ghost found = texts(paths@);
    let sorted = sort_texts(paths);
    proof {
        lemma_same_texts(texts(sorted@), found);
    }
    (sorted, matched)
}

/// How the rows of touched files are told from those of others: the plan is joined with the
/// touched paths, on the left, by the column that tells which file a row comes from.
#[derive(Debug)]
pub struct TargetedInput {
    pub file_path_index: usize,
    /// The columns of the rows of other files. An update leaves these rows out.
    pub untouched: Vec<(String, usize)>,
    /// The columns of the rows of touched files, behind that of the touched paths.
    pub touched: Vec<(String, usize)>,
}

/// Columns with their positions, from a given one on.
pub open spec fn numbered(columns: Seq<Seq<char>>, from: int) -> Seq<(Seq<char>, int)> {
    columns.map(|i: int, name: Seq<char>| (name, from + i))
}

fn number_columns(columns: &Vec<String>, from: usize) -> (projection: Vec<(String, usize)>)
    requires
        from + columns@.len() <= usize::MAX,
    ensures
        projection_view(projection@) == numbered(texts(columns@), from as int),
{
    let mut projection: Vec<(String, usize)> = Vec::new();
    for i in 0..columns.len()
        invariant
            from + columns@.len() <= usize::MAX,
            projection@.len() == i,
            forall|j: int|
                0 <= j < i ==> (#[trigger] projection@[j]).0@ == columns@[j]@ && projection@[j].1
                    == from + j,
    {
        projection.push((columns[i].clone(), from + i));
    }
    assert(projection_view(projection@) =~= numbered(texts(columns@), from as int));
    projection
}

/// How the rows of touched files are told from those of others, in a plan with the given
/// columns.
pub fn targeted_input(columns: &Vec<String>) -> (input: Result<TargetedInput, RowLevelError>)
    requires
        columns@.len() < usize::MAX,
    ensures
        match column_position(texts(columns@), MERGE_FILE_COLUMN@) {
            Some(at) => input matches Ok(i) && i.file_path_index == at && projection_view(
                i.untouched@,
            ) == numbered(texts(columns@), 0) && projection_view(i.touched@) == numbered(
                texts(columns@),
                1,
            ),
            None => input == Err::<TargetedInput, _>(RowLevelError::MissingFileColumn),
        },
{
    match find_column(columns, MERGE_FILE_COLUMN) {
        Some(file_path_index) => Ok(
            TargetedInput {
                file_path_index,
                untouched: number_columns(columns, 0),
                touched: number_columns(columns, 1),
            },
        ),
        None => Err(RowLevelError::MissingFileColumn),
    }
}

/// A column that a table is partitioned by, with the expression as it shows in messages.
#[derive(Debug)]
pub struct PartitionColumn {
    pub column: String,
    pub shown: String,
}

/// A partition column that the input lacks.
#[derive(Debug)]
pub struct MissingPartitionColumn {
    pub shown: String,
}

impl MissingPartitionColumn {
    pub fn message(&self) -> (text: String)
        ensures
            text@ == "Partition column '"@ + self.shown@ + "' not found in schema"@,
    {
        let mut text = "Partition column '".to_owned();
        text.append(self.shown.as_str());
        text.append("' not found in schema");
        text
    }
}

/// The first partition column that the input lacks.
pub open spec fn first_missing(schema: Seq<Seq<char>>, columns: Seq<PartitionColumn>) -> Option<
    PartitionColumn,
>
    decreases columns.len(),
{
    if columns.len() == 0 {
        None
    } else if column_position(schema, columns[0].column@) is None {
        Some(columns[0])
    } else {
        first_missing(schema, columns.skip(1))
    }
}

/// Checks that partition columns refer to columns of the input.
pub fn check_partition_columns(schema: &Vec<String>, columns: &Vec<PartitionColumn>) -> (outcome:
    Result<(), MissingPartitionColumn>)
    ensures
        match outcome {
            Ok(_) => first_missing(texts(schema@), columns@) is None,
            Err(missing) => first_missing(texts(schema@), columns@) matches Some(column)
                && missing.shown == column.shown,
        },
{
    assert(columns@.skip(0) =~= columns@);
    for i in 0..columns.len()
        invariant
            first_missing(texts(schema@), columns@) == first_missing(
                texts(schema@),
                columns@.skip(i as int),
            ),
    {
        assert(columns@.skip(i as int)[0] == columns@[i as int]);
        assert(columns@.skip(i as int).skip(1) =~= columns@.skip(i + 1));
        if find_column(schema, columns[i].column.as_str()).is_none() {
            return Err(MissingPartitionColumn { shown: columns[i].shown.clone() });
        }
    }
    Ok(())
}

/// A stage of a write, in order.
#[derive(Debug, Clone, Copy, PartialEq, Eq, Structural)]
pub enum WriteStage {
    CheckColumns,
    Sort,
    Write,
    /// Gathers the output of all writers before the commit.
    Coalesce,
    Commit,
}

/// The stages of a write. Rows are sorted only where an order is asked for.
pub fn write_stages(sorted: bool) -> (stages: Vec<WriteStage>)
    ensures
        stages@ == (if sorted {
            seq![
                WriteStage::CheckColumns,
                WriteStage::Sort,
                WriteStage::Write,
                WriteStage::Coalesce,
                WriteStage::Commit,
            ]
        } else {
            seq![
                WriteStage::CheckColumns,
                WriteStage::Write,
                WriteStage::Coalesce,
                WriteStage::Commit,
            ]
        }),
{
    if sorted {
        vec![
            WriteStage::CheckColumns,
            WriteStage::Sort,
            WriteStage::Write,
            WriteStage::Coalesce,
            WriteStage::Commit,
        ]
    } else {
        vec![
            WriteStage::CheckColumns,
            WriteStage::Write,
            WriteStage::Coalesce,
            WriteStage::Commit,
        ]
    }
}

/// The missing column that is reported is the first partition column whose name no column of the
/// input has; nothing is reported exactly where each of them has one.
pub proof fn law_missing_partition_columns(schema: Seq<Seq<char>>, columns: Seq<PartitionColumn>)
    ensures
        match first_missing(schema, columns) {
            None => forall|i: int|
                0 <= i < columns.len() ==> schema.contains((#[trigger] columns[i]).column@),
            Some(column) => exists|i: int|
                0 <= i < columns.len() && #[trigger] columns[i] == column && !schema.contains(
                    column.column@,
                ) && forall|j: int|
                    0 <= j < i ==> schema.contains((#[trigger] columns[j]).column@),
        },
    decreases columns.len(),
{
    if columns.len() > 0 {
        let rest = columns.skip(1);
        law_column_positions(schema, columns[0].column@);
        law_missing_partition_columns(schema, rest);
        if column_position(schema, columns[0].column@) is Some {
            assert(schema.contains(columns[0].column@)) by {
                let at = column_position(schema, columns[0].column@)->0;
                assert(schema[at] == columns[0].column@);
            }
            match first_missing(schema, columns) {
                None => {
                    assert forall|i: int| 0 <= i < columns.len() implies schema.contains(
                        (#[trigger] columns[i]).column@,
                    ) by {
                        if i > 0 {
                            assert(rest[i - 1] == columns[i]);
                        }
                    }
                },
                Some(column) => {
                    let k = choose|k: int|
                        0 <= k < rest.len() && #[trigger] rest[k] == column && !schema.contains(
                            column.column@,
                        ) && forall|j: int|
                            0 <= j < k ==> schema.contains((#[trigger] rest[j]).column@);
                    assert(columns[k + 1] == column);
                    assert forall|j: int| 0 <= j < k + 1 implies schema.contains(
                        (#[trigger] columns[j]).column@,
                    ) by {
                        if j > 0 {
                            assert(rest[j - 1] == columns[j]);
                        }
                    }
                },
            }
        } else {
            assert(!schema.contains(columns[0].column@));
        }
    }
}

/// A table says how a command works by the property of the command; one that says nothing wants
/// its files copied. The case of what it says does not matter.
pub proof fn law_row_level_modes(metadata: TableMetadata, command: RowLevelCommand, mode: Seq<char>)
    ensures
        ({
            let key = match command {
                RowLevelCommand::Delete => "write.delete.mode"@,
                RowLevelCommand::Merge => "write.merge.mode"@,
                RowLevelCommand::Update => "write.update.mode"@,
            };
            match value_of(metadata.properties@, key) {
                Some(value) => row_level_mode(metadata, command) == value@,
                None => row_level_mode(metadata, command) == "copy-on-write"@,
            }
        }),
        mode_is(mode, "merge-on-read"@) ==> !mode_is(mode, "copy-on-write"@),
{
    reveal_strlit("merge-on-read");
    reveal_strlit("copy-on-write");
    if mode_is(mode, "merge-on-read"@) && mode_is(mode, "copy-on-write"@) {
        assert(folded_text("merge-on-read"@)[0] == folded_text("copy-on-write"@)[0]);
    }
}

/// A plan that tells touched files from others hands an update the rows of touched files, and a
/// merge those that come from a file; a plan that does not hands on all rows.
pub proof fn law_rows_handed_on(plan: RowWritePlan, path: Seq<char>)
    ensures
        !plan.targeted ==> is_rewritten_row(plan, None) && is_rewritten_row(plan, Some(path))
            && is_merged_row(plan, None) && is_merged_row(plan, Some(path)),
        plan.targeted ==> !is_rewritten_row(plan, None) && !is_merged_row(plan, None)
            && is_merged_row(plan, Some(path)),
        plan.targeted ==> (is_rewritten_row(plan, Some(path)) <==> exists|i: int|
            0 <= i < plan.touched_file_paths@.len() && (
            #[trigger] plan.touched_file_paths@[i])@ == path),
{
    let touched = plan.touched_file_paths@;
    if plan.targeted {
        if texts(touched).contains(path) {
            let i = choose|i: int| 0 <= i < texts(touched).len() && texts(touched)[i] == path;
            assert(touched[i]@ == path);
        }
        if exists|i: int| 0 <= i < touched.len() && (#[trigger] touched[i])@ == path {
            let i = choose|i: int| 0 <= i < touched.len() && (#[trigger] touched[i])@ == path;
            assert(texts(touched)[i] == path);
        }
    }
}

/// The values of batches are those of each of them, one batch behind the other.
pub proof fn law_values_of_batches(batches: Seq<Vec<String>>, batch: Vec<String>)
    ensures
        all_values(Seq::empty()) == Seq::<Seq<char>>::empty(),
        all_values(batches.push(batch)).len() == all_values(batches).len() + batch@.len(),
        forall|i: int|
            0 <= i < batch@.len() ==> all_values(batches.push(batch))[all_values(batches).len() + i]
                == (#[trigger] batch@[i])@,
{
    assert(batches.push(batch).drop_last() =~= batches);
}

/// A table without a current snapshot has nothing to delete, whatever the condition. One with a
/// snapshot and a schema is truncated by a delete without a condition, and keeps the rows that do
/// not match by one with a condition; without a schema, the delete is refused.
pub proof fn law_deletes_are_planned(
    metadata: TableMetadata,
    has_condition: bool,
    plan: Result<DeletePlan, RowLevelError>,
)
    requires
        call_ensures(plan_delete, (&metadata, has_condition), plan),
    ensures
        plan == Ok::<_, RowLevelError>(DeletePlan::Nothing) <==> metadata.current_position() is None,
        plan is Err <==> metadata.current_position() is Some && metadata.current_schema_position()
            is None,
        plan == Ok::<_, RowLevelError>(DeletePlan::Truncate) ==> !has_condition,
        plan == Ok::<_, RowLevelError>(DeletePlan::KeepSurvivors) ==> has_condition,
{
}

/// A delete without a condition and a truncation agree: where the one has nothing to delete, the
/// other writes nothing and appends, and where the one truncates, the other writes an empty
/// snapshot in the place of all others.
pub proof fn law_truncations_agree_with_deletes(
    metadata: TableMetadata,
    delete: DeletePlan,
    truncate: TruncatePlan,
)
    requires
        call_ensures(plan_delete, (&metadata, false), Ok(delete)),
        call_ensures(plan_truncate, (&metadata,), Ok(truncate)),
    ensures
        delete is Nothing <==> !truncate.writes,
        delete is Truncate <==> truncate.writes,
        truncate.writes <==> truncate.update_kind is FullOverwrite,
        !truncate.writes <==> truncate.update_kind is FastAppend,
{
}

/// A row-level operation takes part in a table as its truncation does where it deletes without a
/// condition, and otherwise by adding to its rows and deletes, on the snapshot that it was planned
/// for. The latter needs a table that wants deletes to be merged when it is read.
pub proof fn law_row_level_commits(
    metadata: TableMetadata,
    command: RowLevelCommand,
    has_condition: bool,
    expected: Option<Option<i64>>,
    commit: RowLevelCommit,
)
    requires
        call_ensures(
            plan_row_level_commit,
            (&metadata, command, has_condition, expected),
            Ok(commit),
        ),
    ensures
        !(command is Delete) || has_condition ==> commit.update_kind is RowDelta
            && commit.expected_snapshot_id == expected && mode_is(
            row_level_mode(metadata, command),
            "merge-on-read"@,
        ),
        command is Delete && !has_condition && metadata.current_position() is Some
            ==> commit.update_kind is FullOverwrite && commit.expected_snapshot_id == expected,
        command is Delete && !has_condition && metadata.current_position() is None
            ==> commit.update_kind is FastAppend && commit.expected_snapshot_id is None,
        !(command is Merge) ==> metadata.current_schema_position() is Some,
{
}

/// A row-level operation goes through on every table that wants deletes to be merged when it is
/// read and that has a schema.
pub proof fn law_row_level_operations_go_through(
    metadata: TableMetadata,
    command: RowLevelCommand,
    has_condition: bool,
    expected: Option<Option<i64>>,
    commit: Result<RowLevelCommit, RowLevelError>,
)
    requires
        call_ensures(plan_row_level_commit, (&metadata, command, has_condition, expected), commit),
        mode_is(row_level_mode(metadata, command), "merge-on-read"@),
        metadata.current_schema_position() is Some,
    ensures
        commit is Ok,
{
}

/// A merge that changes rows of files overwrites, and hands on the touched files; one that only
/// inserts, or that touches no file, appends. An update always overwrites. Both need a schema and
/// nothing else.
pub proof fn law_merges_and_updates_are_planned(
    metadata: TableMetadata,
    is_insert_only: bool,
    touched: Vec<String>,
    matched: u64,
    merge: Result<RowWritePlan, RowLevelError>,
    update: Result<RowWritePlan, RowLevelError>,
)
    requires
        call_ensures(plan_merge, (&metadata, is_insert_only, touched), merge),
        call_ensures(plan_update, (&metadata, touched, matched), update),
    ensures
        merge is Ok <==> metadata.current_schema_position() is Some,
        update is Ok <==> metadata.current_schema_position() is Some,
        merge matches Ok(plan) ==> {
            let changes = !is_insert_only && touched@.len() > 0;
            &&& plan.operation is Overwrite <==> changes
            &&& plan.operation is Append <==> !changes
            &&& plan.targeted <==> changes
            &&& changes ==> plan.touched_file_paths@ == touched@
            &&& !changes ==> plan.touched_file_paths@.len() == 0
        },
        update matches Ok(plan) ==> {
            &&& plan.operation is Overwrite
            &&& plan.targeted <==> touched@.len() > 0
            &&& plan.touched_file_paths@ == touched@
            &&& touched@.len() > 0 ==> plan.reported_row_count == Some(matched)
            &&& touched@.len() == 0 ==> plan.reported_row_count == Some(0u64)
        },
{
}

/// An update that touches files rewrites exactly the rows of these files.
pub proof fn law_updates_rewrite_touched_files(
    metadata: TableMetadata,
    touched: Vec<String>,
    matched: u64,
    plan: RowWritePlan,
    files: Vec<Option<String>>,
    rows: Vec<usize>,
    k: usize,
)
    requires
        call_ensures(plan_update, (&metadata, touched, matched), Ok(plan)),
        call_ensures(update_rows, (&plan, &files), rows),
        touched@.len() > 0,
    ensures
        rows@.contains(k) <==> k < files@.len() && (files@[k as int] matches Some(path) && exists|
            i: int,
        |
            0 <= i < touched@.len() && (#[trigger] touched@[i])@ == path@),
{
    if k < files@.len() {
        let file = row_files(files@)[k as int];
        match files@[k as int] {
            Some(path) => {
                assert(file == Some(path@));
                law_rows_handed_on(plan, path@);
            },
            None => {
                assert(file is None);
            },
        }
    }
}

/// A command that writes rows needs an input for them, and a second one where touched files are
/// to be found.
pub proof fn law_inputs_are_checked(
    command: RowLevelCommand,
    inputs: usize,
    finds_touched_files: bool,
    outcome: Result<(), RowLevelError>,
)
    requires
        call_ensures(check_inputs, (command, inputs, finds_touched_files), outcome),
    ensures
        outcome is Ok <==> inputs >= 2 || (inputs == 1 && !finds_touched_files),
        inputs == 0 ==> outcome == Err::<(), _>(RowLevelError::MissingInput { command }),
        outcome is Err && inputs > 0 ==> outcome == Err::<(), _>(
            RowLevelError::MissingTouchedFiles { command },
        ),
{
}

/// The stages of a write are the same in the same order, but for the sorting, which comes right
/// before the rows are written.
pub proof fn law_stages_of_writes(sorted: Vec<WriteStage>, unsorted: Vec<WriteStage>)
    requires
        call_ensures(write_stages, (true,), sorted),
        call_ensures(write_stages, (false,), unsorted),
    ensures
        sorted@ == unsorted@.insert(1, WriteStage::Sort),
        unsorted@.len() == 4,
        unsorted@[0] is CheckColumns && unsorted@[1] is Write && unsorted@[2] is Coalesce
            && unsorted@[3] is Commit,
{
    assert(sorted@ =~= unsorted@.insert(1, WriteStage::Sort));
}

/// A command that changes rows in a table that does not merge deletes when it is read is refused:
/// by its name where the table rewrites files instead, and with the mode where that is not known.
pub proof fn law_unmerged_deletes_are_refused(
    metadata: TableMetadata,
    command: RowLevelCommand,
    expected_snapshot_id: Option<Option<i64>>,
    commit: Result<RowLevelCommit, RowLevelError>,
)
    requires
        call_ensures(plan_row_level_commit, (&metadata, command, true, expected_snapshot_id), commit),
        folded_text(row_level_mode(metadata, command)) != folded_text("merge-on-read"@),
    ensures
        folded_text(row_level_mode(metadata, command)) == folded_text("copy-on-write"@) ==> commit
            == Err::<RowLevelCommit, _>(RowLevelError::CopyOnWrite { command }),
        folded_text(row_level_mode(metadata, command)) != folded_text("copy-on-write"@) ==> (
        commit matches Err(RowLevelError::UnknownMode { command: c, mode }) && c == command && mode@
            == row_level_mode(metadata, command)),
{
}

/// A merge hands on the rows that come from a file, and the others too where it does not tell
/// touched files apart; in their order.
pub proof fn law_merged_rows_are_handed_on(
    plan: RowWritePlan,
    files: Vec<Option<String>>,
    rows: Vec<usize>,
    k: usize,
)
    requires
        call_ensures(merge_rows, (&plan, &files), rows),
        k < files@.len(),
    ensures
        rows@.contains(k) <==> !plan.targeted || files@[k as int] is Some,
        forall|i: int, j: int|
            0 <= i < j < rows@.len() ==> #[trigger] rows@[i] < #[trigger] rows@[j],
{
    assert(row_files(files@)[k as int] is Some <==> files@[k as int] is Some);
}

/// The files that rows name are told each once, in order, and never one without a name; every row
/// counts.
pub proof fn law_touched_files_are_told_once(
    batches: Vec<Vec<String>>,
    touched: (Vec<String>, u64),
    path: Seq<char>,
)
    requires
        call_ensures(collect_touched_file_paths, (&batches,), touched),
    ensures
        texts(touched.0@).contains(path) <==> path.len() > 0 && all_values(batches@).contains(path),
        texts(touched.0@).no_duplicates(),
        touched.1 == all_values(batches@).len(),
{
}

/// Only a table that a catalog manages is loaded from the place that is on record.
pub proof fn law_managed_tables_have_locations(
    catalog_managed: bool,
    location: Option<String>,
    loaded: Option<String>,
)
    requires
        call_ensures(location_for_load, (catalog_managed, location), loaded),
    ensures
        catalog_managed ==> loaded == location,
        !catalog_managed ==> loaded is None,
{
}

/// Partition columns are checked against the schema by their names: a column that is not there is
/// told of, the first one.
pub proof fn law_partition_columns_are_checked(
    schema: Vec<String>,
    columns: Vec<PartitionColumn>,
    outcome: Result<(), MissingPartitionColumn>,
)
    requires
        call_ensures(check_partition_columns, (&schema, &columns), outcome),
    ensures
        outcome is Ok <==> first_missing(texts(schema@), columns@) is None,
        outcome matches Err(missing) ==> missing.shown == first_missing(
            texts(schema@),
            columns@,
        )->0.shown,
{
}

} // verus!

use std::sync::Arc;

use datafusion::arrow::array::{Array, BooleanArray, Date32Array, Int32Array, StringArray};
use datafusion::arrow::datatypes::{DataType, Field, Schema};
use datafusion::arrow::record_batch::RecordBatch;
use datafusion::common::{ScalarValue, ToDFSchema};
use datafusion::execution::session_state::SessionStateBuilder;
use datafusion::logical_expr::{col, lit, Expr};
use sail::iceberg::columns::{
    add_column, project_column, strip_internal_columns, without_column, MERGE_FILE_COLUMN,
};
use sail::iceberg::commit::meta::{CommitInput, IcebergCommitExec, WriterOutput};
use sail::iceberg::commit::parents::ParentManifests;
use sail::iceberg::compaction::{
    plan_compaction, split_by_size, IcebergCompactExec, DEFAULT_TARGET_FILE_SIZE,
};
use sail::iceberg::data_files::{
    data_file_path_text, delete_work, deleted_row_count, inserted_data_file, live_files,
    merge_work, merged_files, new_data_file_path, rewrite_outcome, rewritten_data_file, snapshot_files,
    split_by_match, BatchRows, RewriteOutcome, WrittenFile,
};
use sail::iceberg::load::SnapshotUpdateKind;
use sail::iceberg::manifest::{ManifestContentType, ManifestEntry, ManifestStatus};
use sail::iceberg::metadata_files::{FileTimestamp, ListedFile};
use sail::iceberg::overwrite::{ManifestMetadata, StoreContext};
use sail::iceberg::rewrite::{
    next_rewrite_step, retry_pause_ms, rewrite_base, rewrite_production, start_rewrite,
    version_taken, RewriteAction, RewriteContext, RewriteEvent, RewriteFailure, RewriteKind,
};
use sail::iceberg::row_level::{
    check_inputs, check_partition_columns, collect_touched_file_paths,
    ensure_current_row_level_mode, location_for_load, merge_rows, plan_delete, plan_merge,
    plan_row_level_commit, plan_truncate, plan_update, targeted_input, update_rows, write_stages,
    DeletePlan, PartitionColumn, RowLevelCommand, RowLevelCommit, RowLevelError, WriteStage,
};
use sail::iceberg::scan::{
    extract_file_info, IcebergScanByDataFilesExec, ScanAction, ScanByDataFilesState,
    SCAN_CHUNK_FILES,
};
use sail::iceberg::table::{
    DataContentType, DataFile, DataFileFormat, FormatVersion, Operation, PartitionSpec,
    Snapshot, Summary, TableMetadata,
};
use sail::iceberg::table_source::{
    ExtensionError, ExtensionNode, ExtensionPlan, IcebergPhysicalPlanner, IcebergTableSource,
    TableScanPlan,
};
use sail::string_map::StringMap;

/// The rows of a batch before and after those are taken out that the condition matches.
fn batch_rows(batch: &RecordBatch, condition: Expr) -> BatchRows {
    let negated = Expr::Not(Box::new(condition));
    let session_state = SessionStateBuilder::new().with_default_features().build();
    let df_schema = batch.schema().to_dfschema().unwrap();
    let physical_expr = session_state
        .create_physical_expr(negated, &df_schema)
        .unwrap();
    let mask = physical_expr
        .evaluate(batch)
        .unwrap()
        .into_array(batch.num_rows())
        .unwrap();
    let mask = mask.as_any().downcast_ref::<BooleanArray>().unwrap();
    let kept = datafusion::arrow::compute::filter_record_batch(batch, mask).unwrap();
    BatchRows {
        original: batch.num_rows() as u64,
        kept: kept.num_rows() as u64,
    }
}

fn id_batch(ids: Vec<i32>) -> RecordBatch {
    let schema = Arc::new(Schema::new(vec![Field::new("id", DataType::Int32, false)]));
    RecordBatch::try_new(schema, vec![Arc::new(Int32Array::from(ids))]).unwrap()
}

#[test]
fn test_delete_count_matching_rows() {
    let rows = batch_rows(&id_batch(vec![1, 2, 3, 4, 5]), col("id").gt(lit(3i32)));
    assert_eq!(rows.original, 5);
    assert_eq!(rows.kept, 3, "id=1,2,3 should not match id>3");
    let outcome = rewrite_outcome(&vec![rows]);
    assert_eq!(outcome.deleted_rows, 2, "id=4,5 should match condition id>3");
    assert!(outcome.writes_file);
}

#[test]
fn test_delete_count_all_rows_match() {
    let rows = batch_rows(&id_batch(vec![1, 2, 3]), col("id").gt(lit(0i32)));
    assert_eq!(rows.kept, 0, "all rows should be deleted");
    let outcome = rewrite_outcome(&vec![rows]);
    assert_eq!(outcome.deleted_rows, 3);
    assert!(!outcome.writes_file);
}

#[test]
fn test_delete_count_no_rows_match() {
    let rows = batch_rows(&id_batch(vec![1, 2, 3]), col("id").gt(lit(100i32)));
    assert_eq!(rows.kept, 3, "no rows should be deleted");
    let outcome = rewrite_outcome(&vec![rows]);
    assert_eq!(outcome.deleted_rows, 0);
    assert!(outcome.writes_file);
}

#[test]
fn test_delete_count_date_condition() {
    let schema = Arc::new(Schema::new(vec![
        Field::new("event_date", DataType::Date32, true),
        Field::new("name", DataType::Utf8, true),
    ]));
    let batch = RecordBatch::try_new(
        schema,
        vec![
            Arc::new(Date32Array::from(vec![
                Some(19747), // 2024-01-15
                Some(19747), // 2024-01-15
                Some(19748), // 2024-01-16
                Some(19749), // 2024-01-17
            ])),
            Arc::new(StringArray::from(vec!["alice", "bob", "charlie", "dave"])),
        ],
    )
    .unwrap();
    let condition = col("event_date").eq(Expr::Literal(ScalarValue::Date32(Some(19747)), None));
    let rows = batch_rows(&batch, condition);
    assert_eq!(rows.kept, 2, "charlie and dave remain");
    assert_eq!(
        rewrite_outcome(&vec![rows]).deleted_rows,
        2,
        "alice and bob should be deleted (event_date = 2024-01-15)"
    );
}

#[test]
fn noop_delete_plan_reports_zero_count() {
    assert_eq!(
        plan_delete(&metadata(&[], false), false).unwrap(),
        DeletePlan::Nothing
    );
    // No file is written and no writer reports anything, so nothing is committed.
    let exec = IcebergCommitExec::new("s3://b/t".to_string(), None);
    let output = WriterOutput {
        data_files: vec![],
        commit_meta: None,
    };
    let input = exec.commit_input(output).unwrap();
    assert!(matches!(input, CommitInput::Nothing));
    assert_eq!(input.reported_rows(), 0);
}

#[test]
fn conditional_delete_on_snapshotless_table_is_noop() {
    assert_eq!(
        plan_delete(&metadata(&[], false), true).unwrap(),
        DeletePlan::Nothing
    );
}

#[test]
fn deletes_truncate_or_keep_survivors() {
    let table = metadata(&[], true);
    assert_eq!(plan_delete(&table, false).unwrap(), DeletePlan::Truncate);
    assert_eq!(plan_delete(&table, true).unwrap(), DeletePlan::KeepSurvivors);
    let plan = DeletePlan::KeepSurvivors.write_plan().unwrap();
    assert_eq!(plan.operation, Operation::Delete);
    assert!(plan.touched_file_paths.is_empty());
    assert_eq!(plan.reported_row_count, None);
    assert!(DeletePlan::Nothing.write_plan().is_none());
    let outcomes = vec![
        RewriteOutcome {
            deleted_rows: 2,
            writes_file: true,
        },
        RewriteOutcome {
            deleted_rows: 3,
            writes_file: false,
        },
    ];
    assert_eq!(deleted_row_count(&outcomes), 5);
}

fn data_file(path: &str, size: u64, partition: &[&str]) -> DataFile {
    DataFile {
        content: DataContentType::Data,
        file_path: path.to_string(),
        file_format: DataFileFormat::Parquet,
        partition: partition.iter().map(|p| p.to_string()).collect(),
        record_count: 1,
        file_size_in_bytes: size,
        column_sizes: vec![],
        value_counts: vec![],
        null_value_counts: vec![],
        nan_value_counts: vec![],
        lower_bounds: vec![],
        upper_bounds: vec![],
        block_size_in_bytes: None,
        key_metadata: None,
        split_offsets: vec![],
        equality_ids: vec![],
        sort_order_id: None,
        first_row_id: None,
        partition_spec_id: 4,
        referenced_data_file: None,
        content_offset: None,
        content_size_in_bytes: None,
    }
}

fn paths(files: &[DataFile]) -> Vec<&str> {
    files.iter().map(|f| f.file_path.as_str()).collect()
}

fn entry(status: ManifestStatus, path: &str) -> ManifestEntry {
    ManifestEntry {
        status,
        snapshot_id: None,
        sequence_number: None,
        data_file: data_file(path, 1, &[]),
    }
}

#[test]
fn files_are_kept_or_rewritten() {
    let files = live_files(vec![
        entry(ManifestStatus::Added, "a"),
        entry(ManifestStatus::Deleted, "b"),
        entry(ManifestStatus::Existing, "c"),
        entry(ManifestStatus::Added, "d"),
    ]);
    assert_eq!(paths(&files), vec!["a", "c", "d"]);
    let split = split_by_match(files, &vec![false, true, false]);
    assert_eq!(paths(&split.kept), vec!["a", "d"]);
    assert_eq!(paths(&split.rewritten), vec!["c"]);
    let files = snapshot_files(split.kept, vec![data_file("new", 1, &[])]);
    assert_eq!(paths(&files), vec!["a", "d", "new"]);
}

#[test]
fn rewritten_files_stay_in_their_partition() {
    let former = data_file("a", 100, &["x"]);
    let written = WrittenFile {
        rows: 6,
        size: 90,
        columns: 3,
    };
    let file = rewritten_data_file("data/new.parquet".to_string(), &former, written);
    assert_eq!(file.partition, vec!["x".to_string()]);
    assert_eq!(file.partition_spec_id, 4);
    assert_eq!(file.record_count, 6);
    assert_eq!(file.file_size_in_bytes, 90);
    // Sizes are spread over the columns, which are numbered from one.
    assert_eq!(file.column_sizes, vec![(1, 30), (2, 30), (3, 30)]);
    assert_eq!(file.value_counts, vec![(1, 6), (2, 6), (3, 6)]);
    let inserted = inserted_data_file("data/i.parquet".to_string(), None, written);
    assert_eq!(inserted.partition_spec_id, 0);
    assert!(inserted.partition.is_empty());
}

#[test]
fn new_files_have_names_of_their_own() {
    assert_eq!(data_file_path_text("id"), "data/id.parquet");
    let path = new_data_file_path();
    assert_ne!(path, new_data_file_path());
    let id = path
        .strip_prefix("data/")
        .unwrap()
        .strip_suffix(".parquet")
        .unwrap();
    assert!(uuid::Uuid::parse_str(id).is_ok());
}

#[test]
fn merges_do_what_their_clauses_say() {
    let work = merge_work(Some(2), true, true);
    assert!(work.matches_rows);
    assert_eq!(work.inserts, 2);
    assert!(!merge_work(None, false, true).matches_rows);
}

#[test]
fn merges_keep_every_file_of_the_table() {
    let files = merged_files(
        vec![
            entry(ManifestStatus::Existing, "a"),
            entry(ManifestStatus::Deleted, "b"),
            entry(ManifestStatus::Added, "c"),
        ],
        vec![data_file("new", 1, &[])],
    );
    assert_eq!(paths(&files), vec!["a", "c", "new"]);
}

fn manifest_metadata() -> ManifestMetadata {
    ManifestMetadata {
        schema: sail::iceberg::table::Schema {
            schema_id: 0,
            fields: vec![],
            highest_field_id: 0,
            min_format_version: FormatVersion::V1,
        },
        schema_id: 0,
        partition_spec: PartitionSpec {
            spec_id: 0,
            fields: vec![],
        },
        format_version: FormatVersion::V2,
        content: ManifestContentType::Data,
    }
}

#[test]
fn rewrites_replace_the_files_of_the_table() {
    let production = |kind: RewriteKind| {
        rewrite_production(
            kind,
            vec![data_file("kept", 1, &[])],
            vec![data_file("written", 1, &[])],
            StoreContext {
                table_url: "s3://b/t".to_string(),
            },
            manifest_metadata(),
        )
    };
    let delete = production(RewriteKind::Delete);
    assert_eq!(delete.operation, Operation::Delete);
    assert_eq!(paths(&delete.added_data_files), vec!["kept", "written"]);
    assert!(matches!(delete.parents, ParentManifests::Only { entries } if entries.is_empty()));
    let merge = production(RewriteKind::Merge);
    assert_eq!(merge.operation.as_str(), "overwrite");
    assert!(matches!(merge.parents, ParentManifests::Only { entries } if entries.is_empty()));
    let compaction = production(RewriteKind::Compact);
    assert!(matches!(compaction.parents, ParentManifests::Unsaid));
}

#[test]
fn rewrites_start_from_the_current_snapshot() {
    assert_eq!(rewrite_base(&metadata(&[], true)), Ok(1));
    let missing = rewrite_base(&metadata(&[], false)).unwrap_err();
    assert_eq!(missing.message(), "No current snapshot found");
    let mut broken = metadata(&[], true);
    broken.schemas = vec![];
    assert_eq!(
        rewrite_base(&broken).unwrap_err().message(),
        "No current schema"
    );
}

#[test]
fn deletes_pass_over_stale_versions() {
    let time = |seconds: i64| FileTimestamp { seconds, nanos: 0 };
    let found = |seconds: i64| {
        vec![ListedFile {
            path: "v2".to_string(),
            version: Some(2),
            modified: time(seconds),
        }]
    };
    assert!(!version_taken(RewriteKind::Delete, &found(4), time(5)));
    assert!(version_taken(RewriteKind::Delete, &found(5), time(5)));
    assert!(version_taken(RewriteKind::Merge, &found(4), time(5)));
    assert!(version_taken(RewriteKind::Compact, &found(4), time(5)));
    assert!(!version_taken(RewriteKind::Merge, &vec![], time(5)));
}

#[test]
fn small_files_are_packed_by_partition() {
    let split = split_by_size(
        vec![data_file("big", 90, &[]), data_file("small", 10, &[])],
        75,
    );
    assert_eq!(paths(&split.large), vec!["big"]);
    assert_eq!(paths(&split.small), vec!["small"]);
    assert!(plan_compaction(vec![data_file("big", 90, &[])], 75).is_none());
    let plan = plan_compaction(vec![data_file("small", 10, &[])], 75).unwrap();
    assert_eq!(paths(&plan.small), vec!["small"]);
    let batches = IcebergCompactExec::bin_pack_files(
        vec![
            data_file("a", 60, &["x"]),
            data_file("b", 30, &["x"]),
            data_file("c", 50, &["y"]),
            data_file("d", 40, &["x"]),
        ],
        100,
    );
    for batch in &batches {
        assert!(batch.files.len() == 1 || batch.total_size <= 100);
        assert!(batch
            .files
            .iter()
            .all(|f| f.partition == batch.partition_values));
    }
    let mut packed: Vec<&str> = batches.iter().flat_map(|b| paths(&b.files)).collect();
    packed.sort();
    assert_eq!(packed, vec!["a", "b", "c", "d"]);
    let exec = IcebergCompactExec::new("u".to_string(), None, vec![]);
    assert_eq!(exec.target_file_size, DEFAULT_TARGET_FILE_SIZE);
}

#[test]
fn rewrites_are_reported_once_committed() {
    let context = RewriteContext {
        kind: RewriteKind::Delete,
        snapshot_id: 7,
        reported_count: 3,
    };
    let (state, action) = start_rewrite();
    assert!(matches!(action, RewriteAction::LoadMetadata { .. }));
    let loaded = RewriteEvent::Loaded {
        snapshot_id: Some(7),
    };
    let (state, action) = next_rewrite_step(context, state, loaded);
    assert!(matches!(action, RewriteAction::CheckVersion { .. }));
    let (state, action) =
        next_rewrite_step(context, state, RewriteEvent::Checked { taken: false });
    assert_eq!(action, RewriteAction::Commit);
    let (_, action) = next_rewrite_step(context, state, RewriteEvent::Committed);
    assert_eq!(action, RewriteAction::Report { count: 3 });
}

#[test]
fn rewrites_give_up() {
    let context = RewriteContext {
        kind: RewriteKind::Compact,
        snapshot_id: 7,
        reported_count: 3,
    };
    let (mut state, mut action) = start_rewrite();
    let mut loads = 0;
    loop {
        let event = match action {
            RewriteAction::LoadMetadata { .. } => {
                loads += 1;
                RewriteEvent::Loaded {
                    snapshot_id: Some(7),
                }
            }
            RewriteAction::CheckVersion { .. } => RewriteEvent::Checked { taken: true },
            RewriteAction::Commit => RewriteEvent::Refused,
            RewriteAction::Report { .. } => panic!("nothing was committed"),
            RewriteAction::Fail { failure } => {
                assert_ne!(failure, RewriteFailure::Step);
                break;
            }
        };
        let next = next_rewrite_step(context, state, event);
        state = next.0;
        action = next.1;
    }
    assert_eq!(loads, RewriteKind::Compact.max_attempts());
    assert_eq!(RewriteKind::Compact.operation(), Operation::Replace);
    assert_eq!(RewriteKind::Compact.operation().as_str(), "replace");
    for retry in 0..3 {
        assert!(retry_pause_ms(retry) <= 5 << retry);
    }
}

fn names(list: &[&str]) -> Vec<String> {
    list.iter().map(|name| name.to_string()).collect()
}

#[test]
fn internal_columns_are_stripped() {
    let projection =
        strip_internal_columns(&names(&[MERGE_FILE_COLUMN, "b", "a"]), &names(&["a", "b", "c"]));
    assert_eq!(projection, vec![("a".to_string(), 2), ("b".to_string(), 1)]);
    assert_eq!(add_column(names(&["a"]), "a"), names(&["a"]));
    assert_eq!(add_column(names(&["a"]), "b"), names(&["a", "b"]));
    assert_eq!(without_column(&names(&["a", "b", "a"]), "a"), names(&["b"]));
    assert_eq!(project_column(vec![0], &names(&["a", "b"]), "b"), vec![0, 1]);
    assert_eq!(project_column(vec![1], &names(&["a", "b"]), "b"), vec![1]);
}

#[test]
fn scans_of_changed_rows_tell_files() {
    let source = IcebergTableSource::new('p');
    assert!(!source.keeps_filters());
    let (source, projection) =
        source.ensure_update_metadata_columns(names(&["a", "b"]), Some(vec![1]));
    assert_eq!(source.file_column_name().unwrap(), MERGE_FILE_COLUMN);
    assert_eq!(projection, Some(vec![1, 2]));
    assert!(source.keeps_filters());
    assert_eq!(source.schema(names(&["a"])), names(&["a", MERGE_FILE_COLUMN]));
    let (_, projection) = source.ensure_update_metadata_columns(names(&["a", "b"]), Some(vec![0]));
    assert_eq!(projection, Some(vec![0]));
}

#[test]
fn planners_plan_what_is_theirs() {
    let planner = IcebergPhysicalPlanner;
    assert_eq!(
        planner.plan_extension(&ExtensionNode::IcebergWrite, 1, 1),
        Ok(ExtensionPlan::Write)
    );
    assert_eq!(
        planner.plan_extension(&ExtensionNode::IcebergWrite, 2, 1),
        Err(ExtensionError::LogicalInputs)
    );
    assert_eq!(
        planner.plan_extension(&ExtensionNode::IcebergWrite, 1, 0),
        Err(ExtensionError::PhysicalInputs)
    );
    let row_level = |format: &str| ExtensionNode::RowLevelWrite {
        target_format: format.to_string(),
    };
    assert_eq!(
        planner.plan_extension(&row_level("ICEBERG"), 0, 0),
        Ok(ExtensionPlan::RowLevelWrite)
    );
    assert_eq!(
        planner.plan_extension(&row_level("delta"), 0, 0),
        Ok(ExtensionPlan::NotMine)
    );
    let plain = IcebergTableSource::new(());
    assert_eq!(planner.plan_table_scan(Some(&plain), true), TableScanPlan::Provider);
    let tagged = IcebergTableSource::new(()).with_file_column("f");
    assert_eq!(planner.plan_table_scan(Some(&tagged), true), TableScanPlan::ByDataFiles);
    assert_eq!(planner.plan_table_scan(Some(&tagged), false), TableScanPlan::Empty);
    assert_eq!(planner.plan_table_scan::<()>(None, true), TableScanPlan::NotMine);
}

#[test]
fn scans_read_files_in_chunks() {
    let files = |from: usize, to: usize| -> Vec<(String, u64)> {
        (from..to).map(|i| (format!("f{i}"), 1)).collect()
    };
    let mut state = ScanByDataFilesState::new();
    assert!(matches!(state.next_action(), ScanAction::PullInput));
    state.files_arrived(files(0, SCAN_CHUNK_FILES - 1));
    assert!(matches!(state.next_action(), ScanAction::PullInput));
    state.files_arrived(files(SCAN_CHUNK_FILES - 1, SCAN_CHUNK_FILES));
    match state.next_action() {
        ScanAction::StartScan { files: chunk } => assert_eq!(chunk, files(0, SCAN_CHUNK_FILES)),
        other => panic!("unexpected action: {other:?}"),
    }
    assert!(matches!(state.next_action(), ScanAction::PollScan));
    state.batch_emitted();
    state.scan_ended();
    assert!(matches!(state.next_action(), ScanAction::PullInput));
    state.files_arrived(files(7, 8));
    state.input_ended();
    match state.next_action() {
        ScanAction::StartScan { files: chunk } => assert_eq!(chunk, files(7, 8)),
        other => panic!("unexpected action: {other:?}"),
    }
    state.scan_ended();
    assert!(matches!(state.next_action(), ScanAction::Finish));
}

#[test]
fn scans_without_rows_emit_one_empty_batch() {
    let mut state = ScanByDataFilesState::new();
    state.input_ended();
    assert!(matches!(state.next_action(), ScanAction::EmitEmpty));
    assert!(matches!(state.next_action(), ScanAction::Finish));
}

#[test]
fn scans_know_the_columns_of_files() {
    let exec = IcebergScanByDataFilesExec::new_with_file_path_column(
        "s3://b/t".to_string(),
        names(&["id", "value", "path"]),
        Some("path".to_string()),
    );
    assert_eq!(exec.file_schema(), names(&["id", "value"]));
    let files = extract_file_info(
        &vec![Some("a".to_string()), None, Some("b".to_string())],
        &vec![1, 2, 3],
    );
    assert_eq!(files, vec![("a".to_string(), 1), ("b".to_string(), 3)]);
}

fn metadata(properties: &[(&str, &str)], snapshot: bool) -> TableMetadata {
    let mut map = StringMap::new();
    for (key, value) in properties {
        map.insert(key.to_string(), value.to_string());
    }
    TableMetadata {
        format_version: FormatVersion::V2,
        table_uuid: None,
        location: "s3://b/t".to_string(),
        last_sequence_number: 0,
        last_updated_ms: 0,
        last_column_id: 0,
        schemas: vec![sail::iceberg::table::Schema {
            schema_id: 0,
            fields: vec![],
            highest_field_id: 0,
            min_format_version: FormatVersion::V1,
        }],
        current_schema_id: 0,
        partition_specs: vec![PartitionSpec {
            spec_id: 0,
            fields: vec![],
        }],
        default_spec_id: 0,
        last_partition_id: 0,
        properties: map,
        current_snapshot_id: if snapshot { Some(1) } else { None },
        next_row_id: None,
        snapshots: if snapshot {
            vec![Snapshot {
                snapshot_id: 1,
                parent_snapshot_id: None,
                sequence_number: 1,
                timestamp_ms: 1,
                manifest_list: "l".to_string(),
                summary: Summary {
                    operation: Operation::Append,
                    additional_properties: StringMap::new(),
                },
                schema_id: None,
                first_row_id: None,
                added_rows: None,
            }]
        } else {
            vec![]
        },
        snapshot_log: vec![],
        metadata_log: vec![],
        default_sort_order_id: None,
        refs: StringMap::new(),
        statistics: vec![],
        partition_statistics: vec![],
    }
}

#[test]
fn tables_choose_how_rows_are_changed() {
    let check = |mode: &str| {
        ensure_current_row_level_mode(
            &metadata(&[("write.delete.mode", mode)], true),
            RowLevelCommand::Delete,
        )
    };
    assert!(check("merge-on-read").is_ok());
    assert!(matches!(
        check("copy-on-write"),
        Err(RowLevelError::CopyOnWrite { .. })
    ));
    let error = check("sometimes").unwrap_err();
    assert!(error.message().contains("sometimes"));
    assert!(check_inputs(RowLevelCommand::Update, 0, true)
        .unwrap_err()
        .message()
        .ends_with("missing write plan input"));
    assert_eq!(location_for_load(false, Some("l".to_string())), None);
}

#[test]
fn truncated_tables_get_an_empty_snapshot() {
    assert!(plan_truncate(&metadata(&[], true)).unwrap().writes);
    assert!(!plan_truncate(&metadata(&[], false)).unwrap().writes);
    let mut broken = metadata(&[], true);
    broken.schemas = vec![];
    assert_eq!(
        plan_truncate(&broken).unwrap_err().message(),
        "Iceberg table metadata is missing current schema"
    );
}

#[test]
fn only_touched_files_are_rewritten() {
    let (touched, rows) =
        collect_touched_file_paths(&vec![names(&["b", "a"]), names(&["b", "c", "a"])]);
    assert_eq!(rows, 5);
    assert_eq!(touched.len(), 3);
    let table = metadata(&[], true);
    let plan = plan_update(&table, names(&["a"]), 4).unwrap();
    assert!(plan.targeted);
    assert_eq!(plan.reported_row_count, Some(4));
    let nothing_touched = plan_update(&table, vec![], 4).unwrap();
    assert_eq!(nothing_touched.reported_row_count, Some(0));
    let files: Vec<Option<String>> = vec![
        Some("a".to_string()),
        None,
        Some("b".to_string()),
        Some("a".to_string()),
    ];
    assert_eq!(update_rows(&plan, &files), vec![0, 3]);
    assert_eq!(update_rows(&nothing_touched, &files), vec![0, 1, 2, 3]);
    let merge = |insert_only: bool| plan_merge(&table, insert_only, names(&["a"])).unwrap();
    assert_eq!(merge(true).operation, Operation::Append);
    assert_eq!(merge(false).operation, Operation::Overwrite);
    assert_eq!(merge_rows(&merge(false), &files), vec![0, 2, 3]);
    assert_eq!(merge_rows(&merge(true), &files), vec![0, 1, 2, 3]);
    let input = targeted_input(&names(&["id", MERGE_FILE_COLUMN])).unwrap();
    assert_eq!(input.file_path_index, 1);
    assert_eq!(input.touched[0], ("id".to_string(), 1));
    assert_eq!(
        targeted_input(&names(&["id"])).unwrap_err().message(),
        "write_plan missing __sail_file_path column"
    );
}

#[test]
fn row_level_commands_add_to_what_there_is() {
    let properties = &[
        ("write.delete.mode", "merge-on-read"),
        ("write.merge.mode", "merge-on-read"),
        ("write.update.mode", "merge-on-read"),
    ];
    let table = metadata(properties, true);
    for command in [
        RowLevelCommand::Delete,
        RowLevelCommand::Merge,
        RowLevelCommand::Update,
    ] {
        assert_eq!(
            plan_row_level_commit(&table, command, true, Some(Some(1))).unwrap(),
            RowLevelCommit {
                update_kind: SnapshotUpdateKind::RowDelta,
                expected_snapshot_id: Some(Some(1)),
            }
        );
        assert!(matches!(
            plan_row_level_commit(&metadata(&[], true), command, true, None),
            Err(RowLevelError::CopyOnWrite { .. })
        ));
    }
    let truncate = |snapshot: bool| {
        plan_row_level_commit(
            &metadata(&[], snapshot),
            RowLevelCommand::Delete,
            false,
            Some(Some(1)),
        )
        .unwrap()
    };
    assert_eq!(truncate(true).update_kind, SnapshotUpdateKind::FullOverwrite);
    assert_eq!(truncate(true).expected_snapshot_id, Some(Some(1)));
    assert_eq!(truncate(false).update_kind, SnapshotUpdateKind::FastAppend);
    assert_eq!(truncate(false).expected_snapshot_id, None);
    let mut broken = metadata(properties, true);
    broken.schemas = vec![];
    assert_eq!(
        plan_row_level_commit(&broken, RowLevelCommand::Update, true, None)
            .unwrap_err()
            .message(),
        "Iceberg table metadata is missing current schema"
    );
    assert!(plan_row_level_commit(&broken, RowLevelCommand::Merge, true, None).is_ok());
}

#[test]
fn tables_without_a_schema_are_not_changed() {
    let mut broken = metadata(&[], true);
    broken.schemas = vec![];
    let message = "Table has no current schema";
    assert_eq!(plan_delete(&broken, true).unwrap_err().message(), message);
    assert_eq!(
        plan_merge(&broken, true, vec![]).unwrap_err().message(),
        message
    );
    assert_eq!(
        plan_update(&broken, vec![], 0).unwrap_err().message(),
        message
    );
    let mut empty = metadata(&[], false);
    empty.schemas = vec![];
    assert_eq!(plan_delete(&empty, true).unwrap(), DeletePlan::Nothing);
}

#[test]
fn deletes_without_a_condition_leave_no_file() {
    let files = || vec![data_file("a", 1, &[]), data_file("b", 2, &[])];
    let split = delete_work(files(), None);
    assert!(split.kept.is_empty());
    assert!(split.rewritten.is_empty());
    assert_eq!(deleted_row_count(&vec![]), 0);
    let split = delete_work(files(), Some(&vec![true, false]));
    assert_eq!(paths(&split.kept), vec!["b"]);
    assert_eq!(paths(&split.rewritten), vec!["a"]);
}

#[test]
fn written_rows_go_through_stages() {
    assert_eq!(
        write_stages(true),
        vec![
            WriteStage::CheckColumns,
            WriteStage::Sort,
            WriteStage::Write,
            WriteStage::Coalesce,
            WriteStage::Commit
        ]
    );
    let column = PartitionColumn {
        column: "day".to_string(),
        shown: "days(day)".to_string(),
    };
    let columns = vec![column];
    assert!(check_partition_columns(&names(&["day"]), &columns).is_ok());
    assert_eq!(
        check_partition_columns(&names(&["id"]), &columns)
            .unwrap_err()
            .message(),
        "Partition column 'days(day)' not found in schema"
    );
}

#[test]
fn new_data_files_have_random_identifiers() {
    let path = new_data_file_path();
    let identifier = path
        .strip_prefix("data/")
        .and_then(|rest| rest.strip_suffix(".parquet"))
        .unwrap();
    let value = uuid::Uuid::parse_str(identifier).unwrap().as_u128();
    assert_eq!(value / 0x1000_0000_0000_0000_0000 % 16, 4);
    assert_eq!(value / 0x4000_0000_0000_0000 % 4, 2);
    assert_ne!(new_data_file_path(), path);
}

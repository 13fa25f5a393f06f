use sail::iceberg::commit::helper::{
    change_route, extract_table_properties, next_change_step, start_change, ChangeAction,
    ChangeEvent, ChangeFailure, ChangeRoute, OptionLayer,
};
use sail::iceberg::commit::machine::{
    authoritative_location, next_commit_step, recorded_location, start_commit, CatalogAnswer,
    CommitAction, CommitContext, CommitEvent, CommitFailure, CommitPhase,
    IcebergCatalogCommitMode, MetadataSource, NewTableMetadataStyle, PreviousLocation,
    MAX_COMMIT_RETRIES,
};
use sail::iceberg::commit::meta::{
    CommitInput, CommitMeta, IcebergCommitExec, LakehouseContext, MergeError, WriterOutput,
};
use sail::iceberg::commit::parents::{
    compute_untouched_manifest_entries, filter_parent_manifest_entries,
    filter_parent_manifest_entries_by_values, parent_filter, parent_manifests, FilterError,
    ParentFilter, ParentListing, ParentManifests,
};
use sail::iceberg::commit::production::{ActionCommit, OverwriteScope};
use sail::iceberg::manifest::{
    FieldSummary, ManifestContentType, ManifestContents, ManifestFile,
};
use sail::iceberg::overwrite::{ManifestMetadata, SnapshotProduction, StoreContext};
use sail::iceberg::requirements::{validate_requirements, RequirementError};
use sail::iceberg::table::{
    FormatVersion, Operation, PartitionField, PartitionSpec, Schema, Snapshot,
    SnapshotReference, SnapshotRetention, Summary, TableMetadata, TableRequirement, TableUpdate,
};
use sail::string_map::StringMap;

fn commit_meta(row_count: u64) -> CommitMeta {
    CommitMeta {
        table_uri: "s3://bucket/table".to_string(),
        row_count,
        operation: Operation::Append,
        requirements: vec![],
        table_properties: vec![],
        lakehouse_table: None,
        schema: None,
        partition_spec: None,
        touched_file_paths: vec![],
        overwrite_predicate: None,
        overwrite_partition_values: None,
    }
}

fn reported_count(row_counts: &[u64], reported_row_count: Option<u64>) -> Result<u64, MergeError> {
    let mut accumulated: Option<CommitMeta> = None;
    for rows in row_counts {
        IcebergCommitExec::merge_writer_commit_meta(&mut accumulated, commit_meta(*rows))?;
    }
    let exec = IcebergCommitExec::new_with_reported_row_count(
        "s3://bucket/table".to_string(),
        None,
        reported_row_count,
    );
    let output = WriterOutput {
        data_files: vec![],
        commit_meta: accumulated,
    };
    Ok(exec.commit_input(output).unwrap().reported_rows())
}

#[test]
fn count_sums_multiple_commit_meta() {
    // LOAD DATA union: fast-register branch (3 rows) + rewrite writer (2 rows).
    assert_eq!(reported_count(&[3, 2], None), Ok(5));
}

#[test]
fn count_single_commit_meta() {
    // INSERT-like: a single writer with no override.
    assert_eq!(reported_count(&[3], None), Ok(3));
}

#[test]
fn count_reported_row_count_overrides() {
    // UPDATE/DELETE/MERGE pass an explicit reported count; it must win.
    assert_eq!(reported_count(&[3, 2], Some(7)), Ok(7));
}

#[test]
fn count_zero_for_no_commit_meta() {
    // No commit_meta actions -> zero reported rows.
    assert_eq!(reported_count(&[], None), Ok(0));
}

#[test]
fn merge_rejects_inconsistent_commit_meta() {
    // A second commit_meta targeting a different table is inconsistent and
    // must be rejected rather than silently accepted.
    let mut accumulated = Some(commit_meta(3));
    let mut incoming = commit_meta(4);
    incoming.table_uri = "s3://bucket/other".to_string();
    let result = IcebergCommitExec::merge_writer_commit_meta(&mut accumulated, incoming);
    assert!(result.is_err());
    assert_eq!(accumulated.unwrap().row_count, 3);
}

#[test]
fn row_counts_that_do_not_fit_are_refused() {
    assert_eq!(
        reported_count(&[u64::MAX, 1], None),
        Err(MergeError::RowCountOverflow)
    );
    assert_eq!(
        MergeError::RowCountOverflow.message(),
        "Iceberg writer row count overflow across partitions"
    );
    let merged = IcebergCommitExec::merge_all(vec![commit_meta(1), commit_meta(2)]);
    assert_eq!(merged.unwrap().unwrap().row_count, 3);
}

#[test]
fn test_extract_table_properties_returns_first_list() {
    let options = vec![
        OptionLayer::OptionList {
            items: vec![("k1".to_string(), "v1".to_string())],
        },
        OptionLayer::TablePropertyList {
            items: vec![
                ("prop1".to_string(), "val1".to_string()),
                ("prop2".to_string(), "val2".to_string()),
            ],
        },
        OptionLayer::TablePropertyList {
            items: vec![("prop3".to_string(), "val3".to_string())],
        },
    ];
    let result = extract_table_properties(&options);
    assert_eq!(result.len(), 2);
    assert_eq!(result[0], ("prop1".to_string(), "val1".to_string()));
    assert_eq!(result[1], ("prop2".to_string(), "val2".to_string()));
}

#[test]
fn test_extract_table_properties_returns_empty_when_no_table_property_list() {
    let options = vec![OptionLayer::OptionList {
        items: vec![("k1".to_string(), "v1".to_string())],
    }];
    let result = extract_table_properties(&options);
    assert!(result.is_empty());
}

#[test]
fn test_extract_table_properties_returns_empty_when_empty_input() {
    let options: Vec<OptionLayer> = vec![];
    let result = extract_table_properties(&options);
    assert!(result.is_empty());
}

fn context(mode: IcebergCatalogCommitMode, in_catalog: bool) -> CommitContext {
    CommitContext {
        mode,
        in_catalog,
        operation: Operation::Append,
        reported_count: 9,
    }
}

/// The actions of a commit, given what comes of each.
fn actions(context: CommitContext, events: &[CommitEvent]) -> Vec<CommitAction> {
    let mut state = start_commit();
    let mut actions = vec![];
    for event in events {
        let (next, action) = next_commit_step(context, state, *event);
        state = next;
        actions.push(action);
    }
    actions
}

const LOADED: CommitEvent = CommitEvent::Loaded {
    has_snapshot: true,
    located_by_catalog: false,
};
const CLEAR: CommitEvent = CommitEvent::Checked { conflict: false };
const CONFLICT: CommitEvent = CommitEvent::Checked { conflict: true };

#[test]
fn commits_to_files_go_through() {
    let actions = actions(
        context(IcebergCatalogCommitMode::Filesystem, false),
        &[
            CommitEvent::Located { found: true },
            LOADED,
            CLEAR,
            CommitEvent::Done,
            CommitEvent::Done,
            CLEAR,
            CLEAR,
            CommitEvent::Done,
        ],
    );
    assert_eq!(
        actions,
        vec![
            CommitAction::LoadMetadata {
                source: MetadataSource::Found
            },
            CommitAction::CheckNextVersion,
            CommitAction::ProduceSnapshot,
            CommitAction::CheckProduced,
            CommitAction::WriteMetadata {
                with_identifier: false
            },
            CommitAction::VerifyVersion,
            CommitAction::WriteHint {
                with_identifier: false
            },
            CommitAction::Report { count: 9 },
        ]
    );
}

#[test]
fn commits_give_up_after_five_attempts() {
    let context = context(IcebergCatalogCommitMode::Filesystem, false);
    let mut state = start_commit();
    state = next_commit_step(context, state, CommitEvent::Located { found: true }).0;
    for attempt in 1..=MAX_COMMIT_RETRIES {
        assert_eq!(state.attempt, attempt);
        state = next_commit_step(context, state, LOADED).0;
        let (next, action) = next_commit_step(context, state, CONFLICT);
        if attempt < MAX_COMMIT_RETRIES {
            assert_eq!(
                action,
                CommitAction::LoadMetadata {
                    source: MetadataSource::Rescan
                }
            );
        } else {
            assert_eq!(
                action,
                CommitAction::Fail {
                    failure: CommitFailure::Conflict
                }
            );
            assert_eq!(next.phase, CommitPhase::Ended);
        }
        state = next;
    }
    assert_eq!(
        CommitFailure::Conflict.message(),
        "Iceberg commit failed after 5 retries due to concurrent metadata updates"
    );
}

#[test]
fn written_metadata_that_is_not_alone_is_deleted() {
    let actions = actions(
        context(IcebergCatalogCommitMode::MetadataLocationCas, true),
        &[
            CommitEvent::Located { found: true },
            LOADED,
            CLEAR,
            CommitEvent::Done,
            CommitEvent::Done,
            CLEAR,
            CONFLICT,
            CommitEvent::Failed,
        ],
    );
    assert_eq!(actions[4], CommitAction::WriteMetadata { with_identifier: true });
    assert_eq!(actions[6], CommitAction::DeleteWritten);
    assert_eq!(
        actions[7],
        CommitAction::LoadMetadata {
            source: MetadataSource::AskCatalog
        }
    );
}

#[test]
fn new_tables_are_created_where_the_catalog_allows_it() {
    let missing = CommitEvent::Located { found: false };
    assert_eq!(
        actions(
            context(IcebergCatalogCommitMode::Filesystem, true),
            &[missing, CommitEvent::Done, CommitEvent::Done]
        ),
        vec![
            CommitAction::CheckRequirements,
            CommitAction::BootstrapTable {
                style: NewTableMetadataStyle::Hadoop
            },
            CommitAction::UpdateCatalog {
                previous: PreviousLocation::Recorded
            },
        ]
    );
    assert_eq!(
        actions(
            context(IcebergCatalogCommitMode::CatalogCommit, true),
            &[missing, CommitEvent::Done]
        ),
        vec![
            CommitAction::CheckRequirements,
            CommitAction::Fail {
                failure: CommitFailure::MissingMetadata
            },
        ]
    );
}

#[test]
fn requirements_of_a_missing_table_are_checked_first() {
    let missing = CommitEvent::Located { found: false };
    assert_eq!(
        actions(
            context(IcebergCatalogCommitMode::CatalogCommit, true),
            &[missing, CommitEvent::Failed]
        ),
        vec![
            CommitAction::CheckRequirements,
            CommitAction::Fail {
                failure: CommitFailure::Step
            },
        ]
    );
}

#[test]
fn catalogs_commit_themselves() {
    let events = |answer: CatalogAnswer| {
        [
            CommitEvent::Located { found: true },
            LOADED,
            CLEAR,
            CommitEvent::Done,
            CommitEvent::Done,
            CommitEvent::Answered { answer },
        ]
    };
    let strict = context(IcebergCatalogCommitMode::CatalogCommit, true);
    assert_eq!(
        actions(strict, &events(CatalogAnswer::Committed))[5],
        CommitAction::Report { count: 9 }
    );
    assert_eq!(
        actions(strict, &events(CatalogAnswer::NotSupported))[5],
        CommitAction::Fail {
            failure: CommitFailure::NotSupported
        }
    );
    let lenient = context(IcebergCatalogCommitMode::CompatibilityCatalogCommit, true);
    assert_eq!(
        actions(lenient, &events(CatalogAnswer::NotSupported))[5],
        CommitAction::WriteMetadata {
            with_identifier: false
        }
    );
}

#[test]
fn produced_snapshots_are_checked_before_they_are_committed() {
    let produced = [
        CommitEvent::Located { found: true },
        LOADED,
        CLEAR,
        CommitEvent::Done,
        CommitEvent::Failed,
    ];
    let strict = context(IcebergCatalogCommitMode::CatalogCommit, true);
    assert_eq!(
        actions(strict, &produced)[3..],
        [
            CommitAction::CheckProduced,
            CommitAction::Fail {
                failure: CommitFailure::Step
            }
        ]
    );
    let first = [
        CommitEvent::Located { found: true },
        CommitEvent::Loaded {
            has_snapshot: false,
            located_by_catalog: true,
        },
        CommitEvent::Done,
        CommitEvent::Done,
    ];
    assert_eq!(
        actions(strict, &first)[1..],
        [
            CommitAction::ProduceFirstSnapshot,
            CommitAction::CheckProduced,
            CommitAction::CommitFirstSnapshot
        ]
    );
}

#[test]
fn catalogs_say_where_metadata_is() {
    let recorded = recorded_location(None, Some("s3://m".to_string()));
    assert_eq!(
        authoritative_location(IcebergCatalogCommitMode::CatalogCommit, &recorded),
        Some("s3://m".to_string())
    );
    assert_eq!(
        authoritative_location(IcebergCatalogCommitMode::Filesystem, &recorded),
        None
    );
}

#[test]
fn changes_fall_back_to_files() {
    let table = vec!["t".to_string()];
    let route = change_route(Some(&table), Some(IcebergCatalogCommitMode::CatalogCommit));
    let (phase, action) = start_change(route);
    assert_eq!(action, ChangeAction::CommitToCatalog);
    let refused = ChangeEvent::Answered {
        answer: CatalogAnswer::Conflict,
    };
    let (phase, action) = next_change_step(route, phase, refused);
    assert!(matches!(action, ChangeAction::WriteMetadata { .. }));
    let (_, action) = next_change_step(route, phase, ChangeEvent::Exists);
    assert_eq!(
        action,
        ChangeAction::Fail {
            failure: ChangeFailure::FileExists
        }
    );
    assert_eq!(
        ChangeFailure::FileExists.message(),
        "Iceberg commit conflict: metadata file already exists"
    );
}

#[test]
fn changes_to_files_go_through() {
    let route = ChangeRoute {
        mode: IcebergCatalogCommitMode::Filesystem,
        in_catalog: false,
    };
    let (phase, action) = start_change(route);
    assert_eq!(
        action,
        ChangeAction::WriteMetadata {
            with_identifier: false
        }
    );
    let (phase, action) = next_change_step(route, phase, ChangeEvent::Done);
    assert_eq!(
        action,
        ChangeAction::WriteHint {
            with_identifier: false
        }
    );
    let (_, action) = next_change_step(route, phase, ChangeEvent::Done);
    assert_eq!(action, ChangeAction::Committed);
}

fn partition_spec() -> PartitionSpec {
    PartitionSpec {
        spec_id: 0,
        fields: vec![PartitionField {
            source_id: 1,
            field_id: 1000,
            name: "day".to_string(),
            transform: "identity".to_string(),
        }],
    }
}

fn manifest(path: &str, bounds: Option<(&str, &str)>) -> ManifestFile {
    ManifestFile {
        manifest_path: path.to_string(),
        manifest_length: 1,
        partition_spec_id: 0,
        content: ManifestContentType::Data,
        sequence_number: 1,
        min_sequence_number: 1,
        added_snapshot_id: 1,
        partitions: bounds.map(|(lower, upper)| {
            vec![FieldSummary {
                contains_null: false,
                lower_bound_bytes: Some(lower.as_bytes().to_vec()),
                upper_bound_bytes: Some(upper.as_bytes().to_vec()),
            }]
        }),
    }
}

fn paths(manifests: &[ManifestFile]) -> Vec<&str> {
    manifests.iter().map(|m| m.manifest_path.as_str()).collect()
}

#[test]
fn predicates_are_read_from_json() {
    let filter = parent_filter(
        Operation::Overwrite,
        &Some(r#"[["day","2024-01-02"]]"#.to_string()),
        &None,
        vec![],
        &partition_spec(),
    );
    match filter.unwrap() {
        ParentFilter::Fields { predicates } => {
            assert_eq!(predicates, vec![(0, "2024-01-02".to_string())]);
        }
        other => panic!("unexpected filter: {other:?}"),
    }
    let filter = parent_filter(
        Operation::Overwrite,
        &Some("no json".to_string()),
        &None,
        vec![],
        &partition_spec(),
    );
    assert_eq!(
        filter.unwrap_err().message(),
        "Invalid overwrite predicate JSON: expected ident at line 1 column 2"
    );
}

#[test]
fn written_partitions_are_read_from_json() {
    let filter = parent_filter(
        Operation::Overwrite,
        &None,
        &Some(r#"[["2024-01-02"],["2024-01-03"]]"#.to_string()),
        vec![],
        &partition_spec(),
    );
    match filter.unwrap() {
        ParentFilter::Values { written } => {
            assert_eq!(
                written,
                vec![vec!["2024-01-02".to_string()], vec!["2024-01-03".to_string()]]
            );
        }
        other => panic!("unexpected filter: {other:?}"),
    }
    let filter = parent_filter(
        Operation::Overwrite,
        &None,
        &Some("{}".to_string()),
        vec![],
        &partition_spec(),
    );
    assert!(filter
        .unwrap_err()
        .message()
        .starts_with("Invalid partition values JSON: "));
}

#[test]
fn appends_keep_all_parents() {
    let filter = |operation: Operation| {
        parent_filter(
            operation,
            &Some("no json".to_string()),
            &None,
            vec![],
            &partition_spec(),
        )
    };
    assert!(matches!(filter(Operation::Append), Ok(ParentFilter::KeepAll)));
    assert!(matches!(
        filter(Operation::Delete),
        Ok(ParentFilter::ReplaceAll)
    ));
    assert!(matches!(
        filter(Operation::Replace),
        Ok(ParentFilter::ReplaceAll)
    ));
    assert!(filter(Operation::Overwrite).is_err());
}

fn listing() -> ParentListing {
    ParentListing::Listed {
        entries: vec![
            (
                manifest("hit", Some(("2024-01-01", "2024-01-03"))),
                ManifestContents::Files {
                    paths: vec!["a".to_string()],
                },
            ),
            (
                manifest("miss", Some(("2024-02-01", "2024-02-03"))),
                ManifestContents::Files {
                    paths: vec!["b".to_string()],
                },
            ),
        ],
    }
}

fn carried(filter: ParentFilter, listing: ParentListing) -> Vec<String> {
    match parent_manifests(filter, listing).unwrap() {
        ParentManifests::Only { entries } => {
            entries.into_iter().map(|m| m.manifest_path).collect()
        }
        other => panic!("unexpected parents: {other:?}"),
    }
}

#[test]
fn row_level_operations_fall_back_to_full_replacement() {
    let failed = || ParentListing::Failed {
        message: "failed to get parent manifest list: gone".to_string(),
    };
    let touched = || ParentFilter::Touched {
        paths: vec!["a".to_string()],
    };
    assert_eq!(carried(touched(), listing()), vec!["miss"]);
    assert!(carried(touched(), failed()).is_empty());
    let fields = || ParentFilter::Fields {
        predicates: vec![(0, "2024-01-02".to_string())],
    };
    assert_eq!(carried(fields(), listing()), vec!["miss"]);
    assert!(carried(fields(), ParentListing::Absent).is_empty());
    assert_eq!(
        parent_manifests(fields(), failed()).unwrap_err().message(),
        "failed to get parent manifest list: gone"
    );
    let values = || ParentFilter::Values {
        written: vec![vec!["2024-02-02".to_string()]],
    };
    assert_eq!(carried(values(), listing()), vec!["hit"]);
    assert!(parent_manifests(values(), failed()).is_err());
    assert!(carried(ParentFilter::ReplaceAll, failed()).is_empty());
    assert!(matches!(
        parent_manifests(ParentFilter::KeepAll, failed()),
        Ok(ParentManifests::All)
    ));
}

fn production(
    operation: Operation,
    overwrite_predicate: Option<&str>,
    table: &TableMetadata,
) -> Result<SnapshotProduction, FilterError> {
    IcebergCommitExec::produce_snapshot(
        operation,
        vec![],
        OverwriteScope {
            overwrite_predicate: overwrite_predicate.map(|json| json.to_string()),
            overwrite_partition_values: None,
            touched_file_paths: vec![],
        },
        table,
        &partition_spec(),
        listing(),
        StoreContext {
            table_url: "s3://bucket/tbl".to_string(),
        },
        ManifestMetadata {
            schema: schema(0),
            schema_id: 0,
            partition_spec: partition_spec(),
            format_version: table.format_version,
            content: ManifestContentType::Data,
        },
    )
}

#[test]
fn operations_say_what_their_snapshot_is_made_of() {
    let mut table = metadata();
    let append = production(Operation::Append, None, &table).unwrap();
    assert_eq!(append.operation, Operation::Append);
    assert!(matches!(append.parents, ParentManifests::All));
    assert_eq!(append.row_lineage_start_row_id, None);
    table.format_version = FormatVersion::V3;
    table.next_row_id = Some(40);
    let delete = production(Operation::Delete, None, &table).unwrap();
    assert_eq!(delete.row_lineage_start_row_id, Some(40));
    assert!(matches!(delete.parents, ParentManifests::Only { entries } if entries.is_empty()));
    let overwrite = production(
        Operation::Overwrite,
        Some(r#"[["day","2024-01-02"]]"#),
        &table,
    )
    .unwrap();
    match overwrite.parents {
        ParentManifests::Only { entries } => assert_eq!(paths(&entries), vec!["miss"]),
        other => panic!("unexpected parents: {other:?}"),
    }
    assert!(production(Operation::Overwrite, Some("no json"), &table).is_err());
}

#[test]
fn catalogs_get_the_changes_of_metadata_first() {
    let table = metadata();
    let action = |snapshot_id: i64| ActionCommit {
        updates: vec![TableUpdate::AddSnapshot {
            snapshot: snapshot(6, 2),
        }],
        requirements: vec![TableRequirement::RefSnapshotIdMatch {
            ref_name: "main".to_string(),
            snapshot_id: Some(snapshot_id),
        }],
    };
    let action_updates = IcebergCommitExec::check_action(&table, action(5)).unwrap();
    let updates = IcebergCommitExec::catalog_updates(
        vec![TableUpdate::SetCurrentSchema { schema_id: 1 }],
        action_updates,
    );
    assert_eq!(updates.len(), 2);
    assert!(matches!(
        updates[0],
        TableUpdate::SetCurrentSchema { schema_id: 1 }
    ));
    assert!(matches!(updates[1], TableUpdate::AddSnapshot { .. }));
    assert!(matches!(
        IcebergCommitExec::check_action(&table, action(7)),
        Err(RequirementError::Snapshot { .. })
    ));
}

#[test]
fn parents_outside_the_predicate_are_kept() {
    let entries = || {
        vec![
            manifest("hit", Some(("2024-01-01", "2024-01-03"))),
            manifest("miss", Some(("2024-02-01", "2024-02-03"))),
            manifest("unknown", None),
        ]
    };
    let predicates = vec![(0, "2024-01-02".to_string())];
    let kept = filter_parent_manifest_entries(entries(), &predicates);
    assert_eq!(paths(&kept), vec!["miss", "unknown"]);
    let written = vec![vec!["2024-02-02".to_string()]];
    let kept = filter_parent_manifest_entries_by_values(entries(), &written);
    assert_eq!(paths(&kept), vec!["hit", "unknown"]);
}

#[test]
fn parents_with_touched_files_are_replaced() {
    let mut deletes = manifest("deletes", None);
    deletes.content = ManifestContentType::Deletes;
    let files = |path: &str| ManifestContents::Files {
        paths: vec![path.to_string()],
    };
    let entries = vec![
        (manifest("touched", None), files("a")),
        (manifest("untouched", None), files("b")),
        (manifest("broken", None), ManifestContents::Unreadable),
        (deletes, files("a")),
    ];
    let kept = compute_untouched_manifest_entries(entries, &vec!["a".to_string()]);
    assert_eq!(paths(&kept), vec!["untouched", "broken", "deletes"]);
}

fn schema(schema_id: i32) -> Schema {
    Schema {
        schema_id,
        fields: vec![],
        highest_field_id: 3,
        min_format_version: FormatVersion::V1,
    }
}

fn metadata() -> TableMetadata {
    let mut refs = StringMap::new();
    refs.insert(
        "main".to_string(),
        SnapshotReference {
            snapshot_id: 5,
            retention: SnapshotRetention::Branch {
                min_snapshots_to_keep: None,
                max_snapshot_age_ms: None,
                max_ref_age_ms: None,
            },
        },
    );
    TableMetadata {
        format_version: FormatVersion::V2,
        table_uuid: Some(1),
        location: "s3://bucket/tbl".to_string(),
        last_sequence_number: 1,
        last_updated_ms: 0,
        last_column_id: 3,
        schemas: vec![schema(0)],
        current_schema_id: 0,
        partition_specs: vec![partition_spec()],
        default_spec_id: 0,
        last_partition_id: 1000,
        properties: StringMap::new(),
        current_snapshot_id: Some(5),
        next_row_id: None,
        snapshots: vec![snapshot(5, 1)],
        snapshot_log: vec![],
        metadata_log: vec![],
        default_sort_order_id: None,
        refs,
        statistics: vec![],
        partition_statistics: vec![],
    }
}

fn snapshot(id: i64, sequence_number: i64) -> Snapshot {
    Snapshot {
        snapshot_id: id,
        parent_snapshot_id: None,
        sequence_number,
        timestamp_ms: 0,
        manifest_list: "l".to_string(),
        summary: Summary {
            operation: Operation::Append,
            additional_properties: StringMap::new(),
        },
        schema_id: None,
        first_row_id: None,
        added_rows: Some(4),
    }
}

#[test]
fn requirements_are_checked_in_order() {
    let table = metadata();
    let check = |requirements: Vec<TableRequirement>| {
        validate_requirements(Some(&table), &requirements)
    };
    assert!(check(vec![
        TableRequirement::UuidMatch { uuid: 1 },
        TableRequirement::CurrentSchemaIdMatch { current_schema_id: 0 },
        TableRequirement::LastAssignedFieldIdMatch {
            last_assigned_field_id: 3
        },
        TableRequirement::RefSnapshotIdMatch {
            ref_name: "main".to_string(),
            snapshot_id: Some(5)
        },
    ])
    .is_ok());
    assert!(matches!(
        check(vec![
            TableRequirement::CurrentSchemaIdMatch { current_schema_id: 2 },
            TableRequirement::NotExist,
        ]),
        Err(RequirementError::SchemaId {
            expected: 2,
            found: 0
        })
    ));
    assert!(matches!(
        check(vec![TableRequirement::NotExist]),
        Err(RequirementError::AlreadyExists)
    ));
    let moved = check(vec![TableRequirement::RefSnapshotIdMatch {
        ref_name: "main".to_string(),
        snapshot_id: Some(6),
    }]);
    assert!(moved.unwrap_err().message().contains("Some(6)"));
    let other = check(vec![TableRequirement::UuidMatch { uuid: 2 }]);
    assert!(other
        .unwrap_err()
        .message()
        .contains("00000000-0000-0000-0000-000000000002"));
    let digits = check(vec![TableRequirement::UuidMatch {
        uuid: 0x0123456789abcdef_fedcba9876543210,
    }]);
    assert!(digits
        .unwrap_err()
        .message()
        .contains("01234567-89ab-cdef-fedc-ba9876543210"));
    assert!(validate_requirements(None, &vec![TableRequirement::NotExist]).is_ok());
    assert!(matches!(
        validate_requirements(None, &vec![TableRequirement::UuidMatch { uuid: 2 }]),
        Err(RequirementError::MissingMetadata { .. })
    ));
}

#[test]
fn new_schemas_and_specs_are_brought_in() {
    let mut table = metadata();
    let mut new_schema = schema(1);
    new_schema.highest_field_id = 7;
    new_schema.min_format_version = FormatVersion::V3;
    let prepared =
        IcebergCommitExec::prepare_metadata(&mut table, Some(new_schema), None).unwrap();
    assert_eq!(table.current_schema_id, 1);
    assert_eq!(table.last_column_id, 7);
    assert_eq!(table.format_version, FormatVersion::V3);
    assert_eq!(table.schemas.len(), 2);
    assert_eq!(prepared.metadata_updates.len(), 3);
    assert_eq!(prepared.partition_spec.fields.len(), 1);
}

#[test]
fn new_snapshots_are_logged() {
    let mut table = metadata();
    let updates = vec![
        TableUpdate::AddSnapshot {
            snapshot: snapshot(6, 2),
        },
        TableUpdate::SetSnapshotRef {
            ref_name: "main".to_string(),
            reference: SnapshotReference {
                snapshot_id: 6,
                retention: SnapshotRetention::Branch {
                    min_snapshots_to_keep: None,
                    max_snapshot_age_ms: None,
                    max_ref_age_ms: None,
                },
            },
        },
    ];
    IcebergCommitExec::apply_snapshot_updates(&mut table, updates, 77, "v1.json".to_string());
    assert_eq!(table.current_snapshot_id, Some(6));
    assert_eq!(table.last_sequence_number, 2);
    assert_eq!(table.last_updated_ms, 77);
    assert_eq!(table.metadata_log[0].metadata_file, "v1.json");
    assert_eq!(table.snapshot_log[0].snapshot_id, 6);
    // Rows are numbered from the third version on.
    assert_eq!(table.next_row_id, None);
}

#[test]
fn files_without_a_report_are_refused() {
    let exec = IcebergCommitExec::new(
        "u".to_string(),
        Some(LakehouseContext {
            catalog_table: vec!["t".to_string()],
        }),
    );
    let output = WriterOutput {
        data_files: vec![],
        commit_meta: None,
    };
    assert!(matches!(exec.commit_input(output), Ok(CommitInput::Nothing)));
}

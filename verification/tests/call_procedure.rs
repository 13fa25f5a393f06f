use sail::iceberg::call_procedure::{
    apply_procedure_updates, call_outcome, compute_procedure_output, compute_procedure_updates,
    procedure_requirements, resolve_target_snapshot_id, validate_procedure_requirements,
    CallFailure, CallProcedure, CallProcedureExec, CallProcedureOutput, CallRoute,
};
use sail::iceberg::commit::machine::{CatalogAnswer, IcebergCatalogCommitMode};
use sail::iceberg::commit::meta::LakehouseContext;
use sail::iceberg::expiry::retained_snapshot_ids;
use sail::iceberg::table::{
    FormatVersion, Operation, PartitionSpec, Schema, Snapshot, SnapshotReference,
    SnapshotRetention, Summary, TableMetadata, TableRequirement, TableUpdate, MAIN_BRANCH,
};
use sail::string_map::StringMap;

/// A time far behind those of all snapshots, in milliseconds.
const NOW: i64 = 1_800_000_000_000;

fn snapshot(id: i64, parent: Option<i64>) -> Snapshot {
    Snapshot {
        snapshot_id: id,
        parent_snapshot_id: parent,
        sequence_number: id,
        timestamp_ms: id * 1_000,
        manifest_list: format!("s3://bucket/m{id}.avro"),
        summary: Summary {
            operation: Operation::Append,
            additional_properties: StringMap::new(),
        },
        schema_id: None,
        first_row_id: None,
        added_rows: None,
    }
}

fn branch_ref(snapshot_id: i64) -> SnapshotReference {
    SnapshotReference {
        snapshot_id,
        retention: SnapshotRetention::Branch {
            min_snapshots_to_keep: None,
            max_snapshot_age_ms: None,
            max_ref_age_ms: None,
        },
    }
}

/// A tag pointing at the given snapshot.
fn tag_ref(snapshot_id: i64) -> SnapshotReference {
    SnapshotReference {
        snapshot_id,
        retention: SnapshotRetention::Tag {
            max_ref_age_ms: None,
        },
    }
}

fn sample_metadata() -> TableMetadata {
    let mut refs = StringMap::new();
    refs.insert("main".to_string(), branch_ref(2));
    TableMetadata {
        format_version: FormatVersion::V2,
        table_uuid: None,
        location: "s3://bucket/tbl".to_string(),
        last_sequence_number: 0,
        last_updated_ms: 0,
        last_column_id: 0,
        schemas: vec![Schema {
            schema_id: 0,
            fields: vec![],
            highest_field_id: 0,
            min_format_version: FormatVersion::V1,
        }],
        current_schema_id: 0,
        partition_specs: vec![PartitionSpec {
            spec_id: 0,
            fields: vec![],
        }],
        default_spec_id: 0,
        last_partition_id: 0,
        properties: StringMap::new(),
        current_snapshot_id: Some(2),
        next_row_id: None,
        snapshots: vec![snapshot(1, None), snapshot(2, Some(1))],
        snapshot_log: vec![],
        metadata_log: vec![],
        default_sort_order_id: None,
        refs,
        statistics: vec![],
        partition_statistics: vec![],
    }
}

/// Metadata with a four-deep snapshot chain `1(1000ms) → 2(2000ms) → 3(3000ms) →
/// 4(4000ms)` where `main` points at 4. No extra refs; retention defaults.
fn chain_metadata() -> TableMetadata {
    let mut meta = sample_metadata();
    meta.snapshots = (1..=4)
        .map(|id| snapshot(id, if id > 1 { Some(id - 1) } else { None }))
        .collect();
    meta.current_snapshot_id = Some(4);
    meta.refs = StringMap::new();
    meta.refs.insert("main".to_string(), branch_ref(4));
    meta
}

fn rollback(snapshot_id: i64) -> CallProcedure {
    CallProcedure::RollbackToSnapshot {
        table: "t".to_string(),
        snapshot_id,
    }
}

fn set_current(target_id: Option<i64>, ref_name: Option<&str>) -> CallProcedure {
    CallProcedure::SetCurrentSnapshot {
        table: "t".to_string(),
        target_id,
        ref_name: ref_name.map(|name| name.to_string()),
    }
}

fn expire(older_than_ms: Option<i64>, retain_last: Option<i32>) -> CallProcedure {
    CallProcedure::ExpireSnapshots {
        table: "t".to_string(),
        older_than_ms,
        retain_last,
    }
}

fn assert_sets_main(updates: &[TableUpdate], snapshot_id: i64) {
    assert_eq!(updates.len(), 1);
    match &updates[0] {
        TableUpdate::SetSnapshotRef {
            ref_name,
            reference,
        } => {
            assert_eq!(ref_name, MAIN_BRANCH);
            assert_eq!(reference.snapshot_id, snapshot_id);
        }
        other => panic!("unexpected update: {other:?}"),
    }
}

fn assert_removes(updates: &[TableUpdate], ids: Vec<i64>) {
    assert_eq!(updates.len(), 1);
    match &updates[0] {
        TableUpdate::RemoveSnapshots { snapshot_ids } => {
            assert_eq!(snapshot_ids, &ids);
        }
        other => panic!("unexpected update: {other:?}"),
    }
}

#[test]
fn rollback_computes_set_snapshot_ref_for_main() {
    let meta = sample_metadata();
    let updates = compute_procedure_updates(&rollback(1), &meta, NOW).unwrap();
    assert_sets_main(&updates, 1);
}

#[test]
fn rollback_rejects_missing_snapshot() {
    let meta = sample_metadata();
    let err = compute_procedure_updates(&rollback(99), &meta, NOW).unwrap_err();
    assert!(err.message().contains("does not exist"));
}

#[test]
fn rollback_allows_current_snapshot() {
    let meta = chain_metadata();
    let updates = compute_procedure_updates(&rollback(4), &meta, NOW).unwrap();
    assert_sets_main(&updates, 4);
}

#[test]
fn rollback_rejects_non_ancestor() {
    let mut meta = chain_metadata();
    // A detached sibling snapshot that is not on the main ancestry (1→2→3→4).
    meta.snapshots.push(snapshot(5, None));
    let err = compute_procedure_updates(&rollback(5), &meta, NOW).unwrap_err();
    assert!(err
        .message()
        .contains("Cannot roll back to snapshot, not an ancestor of the current state: 5"));
}

#[test]
fn rollback_rejects_when_no_current_snapshot() {
    let mut meta = chain_metadata();
    meta.current_snapshot_id = None;
    meta.refs = StringMap::new();
    // The snapshot exists, but there is no current snapshot, so nothing is an ancestor.
    let err = compute_procedure_updates(&rollback(3), &meta, NOW).unwrap_err();
    assert!(err
        .message()
        .contains("not an ancestor of the current state"));
}

#[test]
fn set_current_snapshot_does_not_require_ancestry() {
    let mut meta = chain_metadata();
    meta.snapshots.push(snapshot(5, None));
    // set_current_snapshot only requires existence, not ancestry.
    let updates = compute_procedure_updates(&set_current(Some(5), None), &meta, NOW).unwrap();
    assert_sets_main(&updates, 5);
}

#[test]
fn expire_computes_remove_snapshots_skipping_current() {
    let meta = sample_metadata();
    // Nothing older than 500ms → nothing expires.
    let updates = compute_procedure_updates(&expire(Some(500), None), &meta, NOW).unwrap();
    assert!(updates.is_empty());

    // Snapshot 1 (1000ms) is expired; snapshot 2 (2000ms) is the current/main
    // snapshot and must be retained.
    let updates = compute_procedure_updates(&expire(Some(1_500), None), &meta, NOW).unwrap();
    assert_removes(&updates, vec![1]);
}

#[test]
fn apply_set_snapshot_ref_updates_current_and_refs() {
    let mut meta = sample_metadata();
    let updates = compute_procedure_updates(&set_current(Some(1), None), &meta, NOW).unwrap();
    apply_procedure_updates(&mut meta, &updates).unwrap();
    assert_eq!(meta.current_snapshot_id, Some(1));
    assert_eq!(meta.refs.get("main").unwrap().snapshot_id, 1);
}

#[test]
fn output_snapshot_ref_has_spec_schema_and_row() {
    let output = CallProcedureOutput::SnapshotRef {
        previous_snapshot_id: 2,
        current_snapshot_id: 1,
    };
    assert_eq!(
        output.schema(),
        vec!["previous_snapshot_id", "current_snapshot_id"]
    );
    assert_eq!(output.row(), vec![2, 1]);
}

#[test]
fn output_expire_has_six_zero_counts() {
    let output = CallProcedureOutput::ExpireSnapshots;
    assert_eq!(
        output.schema(),
        vec![
            "deleted_data_files_count",
            "deleted_position_delete_files_count",
            "deleted_equality_delete_files_count",
            "deleted_manifest_files_count",
            "deleted_manifest_lists_count",
            "deleted_statistics_files_count",
        ]
    );
    assert_eq!(output.row(), vec![0, 0, 0, 0, 0, 0]);
}

#[test]
fn filesystem_requirements_pass_when_main_unchanged() {
    let meta = sample_metadata();
    let requirements = procedure_requirements(&meta);
    assert_eq!(requirements.len(), 1);
    validate_procedure_requirements(&meta, &requirements).unwrap();
}

#[test]
fn filesystem_requirements_reject_moved_main() {
    let mut meta = sample_metadata();
    meta.refs.insert("main".to_string(), branch_ref(99));
    meta.current_snapshot_id = Some(99);
    let requirements = procedure_requirements(&sample_metadata());
    let err = validate_procedure_requirements(&meta, &requirements).unwrap_err();
    assert!(err
        .message()
        .contains("expected snapshot Some(2) but found Some(99)"));
}

#[test]
fn expire_retain_last_one_expires_oldest_only() {
    let meta = chain_metadata();
    // Only snapshot 4 (4000ms) is recent; with retain_last=1 only its ancestry up to
    // the first old ancestor survives, so 1, 2 and 3 all expire.
    let updates = compute_procedure_updates(&expire(Some(3_500), Some(1)), &meta, NOW).unwrap();
    assert_removes(&updates, vec![1, 2, 3]);
}

#[test]
fn expire_retain_last_two_preserves_second_ancestor() {
    let meta = chain_metadata();
    // retain_last=2 additionally preserves snapshot 3 despite being older than the
    // 3500ms cutoff, so only 1 and 2 expire.
    let updates = compute_procedure_updates(&expire(Some(3_500), Some(2)), &meta, NOW).unwrap();
    assert_removes(&updates, vec![1, 2]);
}

#[test]
fn expire_tag_referenced_snapshot_is_retained() {
    let mut meta = chain_metadata();
    meta.refs.insert("t".to_string(), tag_ref(1));
    let updates = compute_procedure_updates(&expire(Some(3_500), Some(1)), &meta, NOW).unwrap();
    // Snapshot 1 is the tag target and must survive; snapshots 2 and 3 (old, beyond
    // the count floor) expire. No `RemoveSnapshotRef` is emitted for the tag.
    assert_removes(&updates, vec![2, 3]);
    assert!(!updates
        .iter()
        .any(|u| matches!(u, TableUpdate::RemoveSnapshotRef { ref_name } if ref_name == "t")));
}

#[test]
fn expire_branch_referenced_head_is_retained() {
    let mut meta = chain_metadata();
    meta.refs.insert("b".to_string(), branch_ref(2));
    let updates = compute_procedure_updates(&expire(Some(3_500), Some(1)), &meta, NOW).unwrap();
    // Branch `b`'s count floor (1) keeps its head snapshot 2; its ancestor 1 and the
    // main-branch middle snapshots 3 still expire. No `RemoveSnapshotRef` for `b`.
    assert_removes(&updates, vec![1, 3]);
    assert!(!updates
        .iter()
        .any(|u| matches!(u, TableUpdate::RemoveSnapshotRef { ref_name } if ref_name == "b")));
}

#[test]
fn expire_drops_aged_out_ref_and_its_snapshot() {
    let mut meta = chain_metadata();
    // A tag with a tiny max-ref-age against an old snapshot ages out: the ref is
    // dropped (RemoveSnapshotRef) and the snapshot becomes expirable.
    meta.refs.insert(
        "t".to_string(),
        SnapshotReference {
            snapshot_id: 1,
            retention: SnapshotRetention::Tag {
                max_ref_age_ms: Some(100),
            },
        },
    );
    let updates = compute_procedure_updates(&expire(Some(3_500), Some(1)), &meta, NOW).unwrap();
    assert_eq!(updates.len(), 2);
    let has_remove_ref = updates
        .iter()
        .any(|u| matches!(u, TableUpdate::RemoveSnapshotRef { ref_name } if ref_name == "t"));
    assert!(
        has_remove_ref,
        "expected RemoveSnapshotRef for aged-out tag, got {updates:?}"
    );
    match updates
        .iter()
        .find(|u| matches!(u, TableUpdate::RemoveSnapshots { .. }))
        .unwrap()
    {
        TableUpdate::RemoveSnapshots { snapshot_ids } => {
            assert!(snapshot_ids.contains(&1));
        }
        other => panic!("unexpected update: {other:?}"),
    }
}

#[test]
fn expire_uses_defaults_when_args_omitted() {
    let mut meta = chain_metadata();
    // No older_than/retain_last: defaults are 5 days ago and 1. All chain snapshots
    // are far older than 5 days, so only the head's count floor (1) is retained.
    meta.properties.insert(
        "history.expire.max-snapshot-age-ms".to_string(),
        "1000".to_string(),
    );
    let updates = compute_procedure_updates(&expire(None, None), &meta, NOW).unwrap();
    assert_removes(&updates, vec![1, 2, 3]);
}

#[test]
fn set_current_snapshot_resolves_ref_to_snapshot_id() {
    let mut meta = chain_metadata();
    meta.refs.insert("t".to_string(), tag_ref(2));
    let updates = compute_procedure_updates(&set_current(None, Some("t")), &meta, NOW).unwrap();
    assert_sets_main(&updates, 2);
}

#[test]
fn set_current_snapshot_rejects_missing_ref() {
    let meta = chain_metadata();
    let err =
        compute_procedure_updates(&set_current(None, Some("missing")), &meta, NOW).unwrap_err();
    assert!(err
        .message()
        .contains("Cannot find matching snapshot ID for ref missing"));
}

#[test]
fn set_current_snapshot_rejects_both_snapshot_id_and_ref() {
    let meta = chain_metadata();
    let err = resolve_target_snapshot_id(&set_current(Some(1), Some("t")), &meta).unwrap_err();
    assert!(err
        .message()
        .contains("Either snapshot_id or ref must be provided, not both"));
}

#[test]
fn snapshot_metadata_lookup_by_id() {
    let meta = chain_metadata();
    assert_eq!(meta.snapshot(3).unwrap().snapshot_id, 3);
    assert!(meta.snapshot(99).is_none());
}

#[test]
fn a_negative_snapshot_stands_for_none() {
    let mut meta = sample_metadata();
    meta.refs = StringMap::new();
    meta.current_snapshot_id = None;
    let requirements = vec![TableRequirement::RefSnapshotIdMatch {
        ref_name: "main".to_string(),
        snapshot_id: Some(-1),
    }];
    validate_procedure_requirements(&meta, &requirements).unwrap();
}

#[test]
fn outputs_tell_where_main_was() {
    let meta = chain_metadata();
    let output = compute_procedure_output(&rollback(2), &meta).unwrap();
    assert_eq!(output.row(), vec![4, 2]);
    let output = compute_procedure_output(&expire(None, None), &meta).unwrap();
    assert_eq!(output.row(), vec![0, 0, 0, 0, 0, 0]);
}

#[test]
fn plans_are_committed_where_main_has_not_moved() {
    let meta = chain_metadata();
    let exec =
        CallProcedureExec::plan(rollback(2), "s3://bucket/tbl".to_string(), None, &meta, NOW)
            .unwrap();
    assert!(!exec.keeps_metadata());
    let mut fresh = chain_metadata();
    exec.commit_to(&mut fresh).unwrap();
    assert_eq!(fresh.current_snapshot_id, Some(2));

    let mut moved = chain_metadata();
    moved.refs.insert("main".to_string(), branch_ref(3));
    moved.current_snapshot_id = Some(3);
    assert!(exec.commit_to(&mut moved).is_err());
    assert_eq!(moved.refs.get("main").unwrap().snapshot_id, 3);
}

#[test]
fn routes_follow_the_mode() {
    let meta = chain_metadata();
    let plan = |table: Option<LakehouseContext>| {
        CallProcedureExec::plan(rollback(2), "u".to_string(), table, &meta, NOW).unwrap()
    };
    let exec = plan(None);
    assert!(matches!(
        exec.route(IcebergCatalogCommitMode::Filesystem),
        CallRoute::Files
    ));
    assert!(matches!(
        exec.route(IcebergCatalogCommitMode::CatalogCommit),
        CallRoute::Refused {
            failure: CallFailure::MissingContext
        }
    ));
    match exec.route(IcebergCatalogCommitMode::MetadataLocationCas) {
        CallRoute::Refused { failure } => assert_eq!(
            failure.message(),
            "CALL procedures do not support metadata-location CAS commit yet"
        ),
        other => panic!("unexpected route: {other:?}"),
    }
    assert_eq!(call_outcome(CatalogAnswer::Committed), Ok(()));
    assert_eq!(
        call_outcome(CatalogAnswer::Conflict),
        Err(CallFailure::Conflict)
    );
    assert_eq!(
        call_outcome(CatalogAnswer::NotSupported),
        Err(CallFailure::NotSupported)
    );
}

#[test]
fn references_reach_all_ancestors() {
    let meta = chain_metadata();
    let (retained, referenced) = retained_snapshot_ids(&meta, NOW, 3_500, 1);
    assert_eq!(retained.len(), 1);
    assert!(retained.contains(&4));
    assert_eq!(referenced.len(), 4);
    for id in 1..=4 {
        assert!(referenced.contains(&id));
    }
}

#[test]
fn later_cutoffs_expire_more() {
    let meta = chain_metadata();
    let removed = |older_than: i64| -> Vec<i64> {
        compute_procedure_updates(&expire(Some(older_than), None), &meta, NOW)
            .unwrap()
            .iter()
            .flat_map(|update| match update {
                TableUpdate::RemoveSnapshots { snapshot_ids } => snapshot_ids.clone(),
                _ => vec![],
            })
            .collect()
    };
    assert_eq!(removed(500), Vec::<i64>::new());
    assert_eq!(removed(1_500), vec![1]);
    assert_eq!(removed(2_500), vec![1, 2]);
    // The snapshot that the branch points at stays.
    assert_eq!(removed(9_000), vec![1, 2, 3]);
}

#[test]
fn old_branches_leave_no_hole_in_the_history() {
    let mut meta = chain_metadata();
    meta.refs = StringMap::new();
    meta.refs.insert(
        "main".to_string(),
        SnapshotReference {
            snapshot_id: 4,
            retention: SnapshotRetention::Branch {
                min_snapshots_to_keep: Some(1),
                max_snapshot_age_ms: Some(1),
                max_ref_age_ms: None,
            },
        },
    );
    // Every ancestor is reached by the branch, and too old for it.
    let updates = compute_procedure_updates(&expire(Some(500), None), &meta, NOW).unwrap();
    assert_removes(&updates, vec![1, 2, 3]);
}

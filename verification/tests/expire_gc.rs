use std::collections::HashSet;

use sail::iceberg::expire_gc::{
    collect_files, count_deleted, diff_files, expired_snapshots, files_to_delete,
    increment_count, DeleteOutcome, ExpireGcCounts, FileKind, LoadedSnapshot,
};
use sail::iceberg::manifest::{ManifestContentType, ManifestEntry, ManifestFile, ManifestStatus};
use sail::iceberg::table::{
    DataContentType, DataFile, DataFileFormat, FormatVersion, Operation, PartitionSpec,
    PartitionStatisticsFile, Schema, Snapshot, SnapshotReference, SnapshotRetention,
    StatisticsFile, Summary, TableMetadata,
};
use sail::string_map::StringMap;

fn schema() -> Schema {
    Schema {
        schema_id: 0,
        fields: vec![],
        highest_field_id: 0,
        min_format_version: FormatVersion::V1,
    }
}

fn data_file(path: &str, content: DataContentType) -> DataFile {
    DataFile {
        content,
        file_path: path.to_string(),
        file_format: DataFileFormat::Parquet,
        partition: vec![],
        record_count: 1,
        file_size_in_bytes: 100,
        column_sizes: vec![],
        value_counts: vec![],
        null_value_counts: vec![],
        nan_value_counts: vec![],
        lower_bounds: vec![],
        upper_bounds: vec![],
        block_size_in_bytes: None,
        key_metadata: None,
        split_offsets: vec![],
        equality_ids: vec![],
        sort_order_id: None,
        first_row_id: None,
        partition_spec_id: 0,
        referenced_data_file: None,
        content_offset: None,
        content_size_in_bytes: None,
    }
}

fn snapshot(id: i64, manifest_list: &str) -> Snapshot {
    Snapshot {
        snapshot_id: id,
        parent_snapshot_id: None,
        sequence_number: id,
        timestamp_ms: id * 1_000,
        manifest_list: manifest_list.to_string(),
        summary: Summary {
            operation: Operation::Append,
            additional_properties: StringMap::new(),
        },
        schema_id: None,
        first_row_id: None,
        added_rows: None,
    }
}

fn manifest_file(path: &str) -> ManifestFile {
    ManifestFile {
        manifest_path: path.to_string(),
        manifest_length: 100,
        partition_spec_id: 0,
        content: ManifestContentType::Data,
        sequence_number: 1,
        min_sequence_number: 1,
        added_snapshot_id: 1,
        partitions: None,
    }
}

fn metadata(
    snapshots: Vec<Snapshot>,
    statistics: Vec<StatisticsFile>,
    partition_statistics: Vec<PartitionStatisticsFile>,
) -> TableMetadata {
    let current = snapshots.iter().map(|s| s.snapshot_id).max().unwrap_or(0);
    let mut refs = StringMap::new();
    refs.insert(
        "main".to_string(),
        SnapshotReference {
            snapshot_id: 2,
            retention: SnapshotRetention::Branch {
                min_snapshots_to_keep: None,
                max_snapshot_age_ms: None,
                max_ref_age_ms: None,
            },
        },
    );
    TableMetadata {
        format_version: FormatVersion::V2,
        table_uuid: None,
        location: "s3://bucket/tbl".to_string(),
        last_sequence_number: 0,
        last_updated_ms: 0,
        last_column_id: 0,
        schemas: vec![schema()],
        current_schema_id: 0,
        partition_specs: vec![PartitionSpec {
            spec_id: 0,
            fields: vec![],
        }],
        default_spec_id: 0,
        last_partition_id: 0,
        properties: StringMap::new(),
        current_snapshot_id: if current > 0 { Some(current) } else { None },
        next_row_id: None,
        snapshots,
        snapshot_log: vec![],
        metadata_log: vec![],
        default_sort_order_id: None,
        refs,
        statistics,
        partition_statistics,
    }
}

fn statistics(snapshot_id: i64, path: &str) -> StatisticsFile {
    StatisticsFile {
        snapshot_id,
        statistics_path: path.to_string(),
        file_size_in_bytes: 10,
    }
}

/// A snapshot with one manifest that lists the given files.
fn loaded(
    snapshot_id: i64,
    manifest_path: &str,
    manifest_list_path: &str,
    files: &[(&str, DataContentType)],
) -> LoadedSnapshot {
    let entries = files
        .iter()
        .map(|(path, content)| ManifestEntry {
            status: ManifestStatus::Added,
            snapshot_id: Some(snapshot_id),
            sequence_number: Some(snapshot_id),
            data_file: data_file(path, *content),
        })
        .collect();
    LoadedSnapshot {
        snapshot_id,
        manifest_list: manifest_list_path.to_string(),
        manifests: vec![(manifest_file(manifest_path), entries)],
    }
}

/// Deletes the files that only expired snapshots need. Deleting a missing key succeeds.
fn expire_files_gc(
    store: &mut HashSet<String>,
    pre: &TableMetadata,
    post: &TableMetadata,
    expired: Vec<LoadedSnapshot>,
    retained: Vec<LoadedSnapshot>,
) -> ExpireGcCounts {
    let ids: Vec<i64> = expired.iter().map(|s| s.snapshot_id).collect();
    assert_eq!(expired_snapshots(pre, post), ids);
    let candidates = collect_files(pre, &expired);
    let valid = collect_files(post, &retained);
    let files = diff_files(candidates, valid);
    let outcomes = files
        .iter()
        .map(|(path, _)| {
            store.remove(path);
            DeleteOutcome::Deleted
        })
        .collect();
    count_deleted(&files, &outcomes)
}

fn store_of(paths: &[&str]) -> HashSet<String> {
    paths.iter().map(|path| path.to_string()).collect()
}

#[test]
fn diff_returns_only_files_unique_to_candidates() {
    let candidates = vec![
        (
            "s3://b/data-1.parquet".to_string(),
            FileKind::Data(DataContentType::Data),
        ),
        (
            "s3://b/data-2.parquet".to_string(),
            FileKind::Data(DataContentType::Data),
        ),
        ("s3://b/m1.avro".to_string(), FileKind::Manifest),
    ];
    let valid = vec![
        (
            "s3://b/data-2.parquet".to_string(),
            FileKind::Data(DataContentType::Data),
        ),
        ("s3://b/m1.avro".to_string(), FileKind::Manifest),
    ];
    let to_delete = diff_files(candidates, valid);
    assert_eq!(to_delete.len(), 1);
    assert_eq!(to_delete[0].0, "s3://b/data-1.parquet");
    assert_eq!(to_delete[0].1.tag(), "DATA");
}

#[test]
fn diff_dedupes_and_ignores_same_path_different_kind() {
    let candidates = vec![
        ("s3://b/x".to_string(), FileKind::Manifest),
        ("s3://b/x".to_string(), FileKind::Manifest),
    ];
    let valid = vec![("s3://b/x".to_string(), FileKind::Manifest)];
    let to_delete = diff_files(candidates, valid);
    assert!(to_delete.is_empty());

    // Same path with a different kind is a different file.
    let candidates = vec![("s3://b/x".to_string(), FileKind::Statistics)];
    let valid = vec![("s3://b/x".to_string(), FileKind::Manifest)];
    let to_delete = diff_files(candidates, valid);
    assert_eq!(to_delete.len(), 1);
    assert_eq!(to_delete[0].1.tag(), "Statistics Files");
}

#[test]
fn expire_files_gc_deletes_expired_only_files() {
    let mut store = store_of(&[
        "metadata/snap-1.avro",
        "metadata/m1.avro",
        "s3://bucket/data-1.parquet",
        "metadata/snap-2.avro",
        "metadata/m2.avro",
        "s3://bucket/data-2.parquet",
    ]);
    let first = loaded(
        1,
        "metadata/m1.avro",
        "metadata/snap-1.avro",
        &[("s3://bucket/data-1.parquet", DataContentType::Data)],
    );
    let second = loaded(
        2,
        "metadata/m2.avro",
        "metadata/snap-2.avro",
        &[("s3://bucket/data-2.parquet", DataContentType::Data)],
    );
    let pre = metadata(
        vec![
            snapshot(1, "metadata/snap-1.avro"),
            snapshot(2, "metadata/snap-2.avro"),
        ],
        vec![],
        vec![],
    );
    let post = metadata(vec![snapshot(2, "metadata/snap-2.avro")], vec![], vec![]);

    let counts = expire_files_gc(&mut store, &pre, &post, vec![first], vec![second]);
    assert_eq!(counts.data_files, 1);
    assert_eq!(counts.manifest_files, 1);
    assert_eq!(counts.manifest_lists, 1);
    assert_eq!(counts.position_delete_files, 0);
    assert_eq!(counts.equality_delete_files, 0);
    assert_eq!(counts.statistics_files, 0);

    // Expired snapshot's files are gone; retained snapshot's files survive.
    assert!(!store.contains("metadata/snap-1.avro"));
    assert!(!store.contains("metadata/m1.avro"));
    assert!(!store.contains("s3://bucket/data-1.parquet"));
    assert!(store.contains("metadata/snap-2.avro"));
    assert!(store.contains("metadata/m2.avro"));
    assert!(store.contains("s3://bucket/data-2.parquet"));
}

#[test]
fn expire_files_gc_never_deletes_shared_manifest_content() {
    let mut store = store_of(&[
        "metadata/m1.avro",
        "metadata/snap-1.avro",
        "metadata/snap-2.avro",
    ]);
    // Both snapshots reference the SAME manifest m1 which contains data-1 and data-2.
    let files = [
        ("s3://bucket/data-1.parquet", DataContentType::Data),
        ("s3://bucket/data-2.parquet", DataContentType::Data),
    ];
    let first = loaded(1, "metadata/m1.avro", "metadata/snap-1.avro", &files);
    let second = loaded(2, "metadata/m1.avro", "metadata/snap-2.avro", &files);
    let pre = metadata(
        vec![
            snapshot(1, "metadata/snap-1.avro"),
            snapshot(2, "metadata/snap-2.avro"),
        ],
        vec![],
        vec![],
    );
    let post = metadata(vec![snapshot(2, "metadata/snap-2.avro")], vec![], vec![]);

    let counts = expire_files_gc(&mut store, &pre, &post, vec![first], vec![second]);
    // Snapshot 1's manifest list is unique to it, but the shared manifest and its
    // content files are still required by snapshot 2.
    assert_eq!(counts.data_files, 0);
    assert_eq!(counts.manifest_files, 0);
    assert_eq!(counts.manifest_lists, 1);

    assert!(store.contains("metadata/m1.avro"));
    assert!(store.contains("metadata/snap-2.avro"));
    assert!(!store.contains("metadata/snap-1.avro"));
}

#[test]
fn expire_files_gc_deletes_statistics_files_of_expired_snapshots() {
    let mut store = store_of(&["metadata/stats-1.bin", "metadata/stats-2.bin"]);
    let first = loaded(
        1,
        "metadata/m1.avro",
        "metadata/snap-1.avro",
        &[("s3://bucket/data-1.parquet", DataContentType::Data)],
    );
    let second = loaded(
        2,
        "metadata/m2.avro",
        "metadata/snap-2.avro",
        &[("s3://bucket/data-2.parquet", DataContentType::Data)],
    );
    let pre = metadata(
        vec![
            snapshot(1, "metadata/snap-1.avro"),
            snapshot(2, "metadata/snap-2.avro"),
        ],
        vec![
            statistics(1, "metadata/stats-1.bin"),
            statistics(2, "metadata/stats-2.bin"),
        ],
        vec![],
    );
    let post = metadata(
        vec![snapshot(2, "metadata/snap-2.avro")],
        vec![statistics(2, "metadata/stats-2.bin")],
        vec![],
    );

    let counts = expire_files_gc(&mut store, &pre, &post, vec![first], vec![second]);
    assert_eq!(counts.statistics_files, 1);
    assert!(!store.contains("metadata/stats-1.bin"));
    assert!(store.contains("metadata/stats-2.bin"));
}

#[test]
fn expire_files_gc_counts_position_and_equality_deletes() {
    let mut store = store_of(&[
        "s3://bucket/pos-deletes-1.bin",
        "s3://bucket/eq-deletes-1.bin",
        "s3://bucket/data-2.parquet",
    ]);
    let first = loaded(
        1,
        "metadata/m1.avro",
        "metadata/snap-1.avro",
        &[
            (
                "s3://bucket/pos-deletes-1.bin",
                DataContentType::PositionDeletes,
            ),
            (
                "s3://bucket/eq-deletes-1.bin",
                DataContentType::EqualityDeletes,
            ),
        ],
    );
    let second = loaded(
        2,
        "metadata/m2.avro",
        "metadata/snap-2.avro",
        &[("s3://bucket/data-2.parquet", DataContentType::Data)],
    );
    let pre = metadata(
        vec![
            snapshot(1, "metadata/snap-1.avro"),
            snapshot(2, "metadata/snap-2.avro"),
        ],
        vec![],
        vec![],
    );
    let post = metadata(vec![snapshot(2, "metadata/snap-2.avro")], vec![], vec![]);

    let counts = expire_files_gc(&mut store, &pre, &post, vec![first], vec![second]);
    assert_eq!(counts.position_delete_files, 1);
    assert_eq!(counts.equality_delete_files, 1);
    assert_eq!(counts.data_files, 0);
}

#[test]
fn expire_files_gc_counts_idempotent_delete_of_missing_data_file() {
    // A candidate data file that is not in the store: deleting a missing key succeeds.
    let mut store = store_of(&["s3://bucket/data-2.parquet"]);
    let first = loaded(
        1,
        "metadata/m1.avro",
        "metadata/snap-1.avro",
        &[("s3://bucket/ghost.parquet", DataContentType::Data)],
    );
    let second = loaded(
        2,
        "metadata/m2.avro",
        "metadata/snap-2.avro",
        &[("s3://bucket/data-2.parquet", DataContentType::Data)],
    );
    let pre = metadata(
        vec![
            snapshot(1, "metadata/snap-1.avro"),
            snapshot(2, "metadata/snap-2.avro"),
        ],
        vec![],
        vec![],
    );
    let post = metadata(vec![snapshot(2, "metadata/snap-2.avro")], vec![], vec![]);

    let counts = expire_files_gc(&mut store, &pre, &post, vec![first], vec![second]);
    // The ghost data file is idempotently deleted (counted); m1/snap-1 also deleted.
    assert_eq!(counts.data_files, 1);
    assert_eq!(counts.manifest_files, 1);
    assert_eq!(counts.manifest_lists, 1);
}

#[test]
fn only_deleted_files_count() {
    let files = vec![
        ("a".to_string(), FileKind::Manifest),
        ("b".to_string(), FileKind::Manifest),
        ("c".to_string(), FileKind::ManifestList),
    ];
    let outcomes = vec![
        DeleteOutcome::Deleted,
        DeleteOutcome::Missing,
        DeleteOutcome::Failed,
    ];
    let counts = count_deleted(&files, &outcomes);
    assert_eq!(counts.manifest_files, 1);
    assert_eq!(counts.manifest_lists, 0);
}

#[test]
fn deleted_entries_and_other_statistics_are_not_reachable() {
    let mut first = loaded(
        1,
        "m1",
        "l1",
        &[
            ("kept", DataContentType::Data),
            ("gone", DataContentType::Data),
        ],
    );
    first.manifests[0].1[0].status = ManifestStatus::Existing;
    first.manifests[0].1[1].status = ManifestStatus::Deleted;
    let table = metadata(
        vec![snapshot(1, "l1")],
        vec![statistics(1, "s1"), statistics(2, "s2")],
        vec![
            PartitionStatisticsFile {
                snapshot_id: 1,
                statistics_path: "p1".to_string(),
                file_size_in_bytes: 1,
            },
            PartitionStatisticsFile {
                snapshot_id: 2,
                statistics_path: "p2".to_string(),
                file_size_in_bytes: 1,
            },
        ],
    );
    let files = collect_files(&table, &vec![first]);
    let paths: Vec<&str> = files.iter().map(|(path, _)| path.as_str()).collect();
    assert_eq!(paths, vec!["m1", "kept", "l1", "s1", "p1"]);
    let tags: Vec<&str> = files.iter().map(|(_, kind)| kind.tag()).collect();
    assert_eq!(
        tags,
        vec![
            "Manifest",
            "DATA",
            "Manifest List",
            "Statistics Files",
            "Statistics Files"
        ]
    );
}

#[test]
fn each_kind_has_its_own_count() {
    let mut counts = ExpireGcCounts::default();
    increment_count(&mut counts, &FileKind::Data(DataContentType::PositionDeletes));
    increment_count(&mut counts, &FileKind::Data(DataContentType::EqualityDeletes));
    increment_count(&mut counts, &FileKind::Statistics);
    assert_eq!(counts.position_delete_files, 1);
    assert_eq!(counts.equality_delete_files, 1);
    assert_eq!(counts.statistics_files, 1);
    assert_eq!(counts.data_files, 0);
    assert_eq!(
        FileKind::Data(DataContentType::PositionDeletes).tag(),
        "POSITION_DELETES"
    );
    assert_eq!(
        FileKind::Data(DataContentType::EqualityDeletes).tag(),
        "EQUALITY_DELETES"
    );
}

#[test]
fn files_of_retained_snapshots_are_left() {
    let pre = metadata(
        vec![snapshot(1, "list-1"), snapshot(2, "list-2")],
        vec![statistics(1, "stats-1"), statistics(2, "stats-2")],
        vec![],
    );
    let post = metadata(vec![snapshot(2, "list-2")], vec![statistics(2, "stats-2")], vec![]);
    let expired = vec![loaded(
        1,
        "m1",
        "list-1",
        &[
            ("old", DataContentType::Data),
            ("shared", DataContentType::Data),
        ],
    )];
    let retained = vec![loaded(2, "m2", "list-2", &[("shared", DataContentType::Data)])];
    let files = files_to_delete(&pre, &post, &expired, &retained);
    let paths: HashSet<&str> = files.iter().map(|(path, _)| path.as_str()).collect();
    assert_eq!(
        paths,
        HashSet::from(["m1", "old", "list-1", "stats-1"])
    );
    assert_eq!(files.len(), 4);
}

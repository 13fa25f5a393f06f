use chrono::{TimeZone, Utc};
use sail::iceberg::metadata_files::{
    any_concurrent, any_other, is_stale_metadata_file, last_segment_text, metadata_file_name,
    metadata_files_for_version, new_metadata_file_name, next_metadata, next_metadata_version,
    version_hint, FileTimestamp, ListedFile,
};
use sail::iceberg::metadata_table::{
    summary_columns, IcebergMetadataTableProvider, IcebergMetadataTableType, MetadataTableRows,
};
use sail::iceberg::table::{
    FormatVersion, Operation, PartitionSpec, Schema, Snapshot, SnapshotReference,
    SnapshotRetention, Summary, TableMetadata,
};
use sail::string_map::StringMap;

fn timestamp(hour: u32, day: u32, minute: u32, second: u32) -> FileTimestamp {
    let time = Utc
        .with_ymd_and_hms(2026, 7, day, hour, minute, second)
        .unwrap();
    FileTimestamp {
        seconds: time.timestamp(),
        nanos: time.timestamp_subsec_nanos(),
    }
}

#[test]
fn test_is_stale_metadata_file_when_candidate_is_older() {
    let current = timestamp(7, 14, 0, 0);
    let candidate = timestamp(13, 13, 26, 0);
    assert!(is_stale_metadata_file(candidate, current));
}

#[test]
fn test_is_stale_metadata_file_when_candidate_is_newer() {
    let current = timestamp(7, 14, 0, 0);
    let candidate = timestamp(7, 14, 0, 5);
    assert!(!is_stale_metadata_file(candidate, current));
}

#[test]
fn test_is_stale_metadata_file_when_candidate_is_equal() {
    let ts = timestamp(7, 14, 0, 0);
    assert!(!is_stale_metadata_file(ts, ts));
}

#[test]
fn test_is_stale_metadata_file_when_candidate_is_seconds_newer() {
    let current = timestamp(7, 14, 0, 1);
    let candidate = timestamp(7, 14, 0, 2);
    assert!(!is_stale_metadata_file(candidate, current));
}

#[test]
fn fractions_of_a_second_count() {
    let current = FileTimestamp {
        seconds: 5,
        nanos: 2,
    };
    let candidate = FileTimestamp {
        seconds: 5,
        nanos: 1,
    };
    assert!(is_stale_metadata_file(candidate, current));
    assert!(!is_stale_metadata_file(current, candidate));
}

fn listed(path: &str, version: Option<i32>, seconds: i64) -> ListedFile {
    ListedFile {
        path: path.to_string(),
        version,
        modified: FileTimestamp { seconds, nanos: 0 },
    }
}

#[test]
fn files_of_a_version_are_found() {
    let files = vec![
        listed("a", Some(1), 1),
        listed("b", Some(2), 2),
        listed("c", None, 3),
        listed("d", Some(2), 4),
    ];
    let found = metadata_files_for_version(files, 2);
    let paths: Vec<&str> = found.iter().map(|f| f.path.as_str()).collect();
    assert_eq!(paths, vec!["b", "d"]);
    let current = FileTimestamp {
        seconds: 3,
        nanos: 0,
    };
    assert!(any_concurrent(&found, current));
    assert!(any_other(&found, &"b".to_string()));
    let stale = vec![listed("b", Some(2), 2)];
    assert!(!any_concurrent(&stale, current));
    assert!(!any_other(&stale, &"b".to_string()));
}

#[test]
fn commits_write_the_version_that_follows() {
    assert_eq!(next_metadata_version(None), 1);
    assert_eq!(next_metadata_version(Some(41)), 42);
    let next = next_metadata(Some(6), false, ".metadata.json");
    assert_eq!(next.version, 7);
    assert_eq!(next.file, "metadata/v7.metadata.json");
    assert_eq!(next.hint, "7");
    let next = next_metadata(Some(6), true, ".metadata.json");
    let name = next.file.strip_prefix("metadata/").unwrap();
    assert!(name.starts_with("00007-"));
    assert_eq!(next.hint, name);
    assert_eq!(
        next_metadata(None, false, ".gz.metadata.json").file,
        "metadata/v1.gz.metadata.json"
    );
}

#[test]
fn metadata_files_are_named_by_version() {
    assert_eq!(
        metadata_file_name(3, None, ".metadata.json"),
        "metadata/v3.metadata.json"
    );
    assert_eq!(
        metadata_file_name(3, Some("id".to_string()), ".metadata.json"),
        "metadata/00003-id.metadata.json"
    );
    assert_eq!(
        new_metadata_file_name(12, false, ".metadata.json"),
        "metadata/v12.metadata.json"
    );
    // Identifiers are written as five groups of hexadecimal digits, and never repeat.
    let name = new_metadata_file_name(12, true, ".metadata.json");
    let other = new_metadata_file_name(12, true, ".metadata.json");
    assert_ne!(name, other);
    let id = name
        .strip_prefix("metadata/00012-")
        .unwrap()
        .strip_suffix(".metadata.json")
        .unwrap();
    assert!(uuid::Uuid::parse_str(id).is_ok());
    assert_eq!(id.len(), 36);
}

#[test]
fn hints_name_the_version_or_the_file() {
    assert_eq!(version_hint(7, false, "metadata/v7.metadata.json"), "7");
    assert_eq!(version_hint(7, true, "metadata/00007-x.json"), "00007-x.json");
    assert_eq!(last_segment_text("a/b/c"), "c");
    assert_eq!(last_segment_text("c"), "c");
}

fn snapshot(id: i64, parent: Option<i64>, operation: Operation) -> Snapshot {
    let mut additional_properties = StringMap::new();
    additional_properties.insert("added-data-files".to_string(), id.to_string());
    Snapshot {
        snapshot_id: id,
        parent_snapshot_id: parent,
        sequence_number: id,
        timestamp_ms: id * 1_000,
        manifest_list: format!("s3://bucket/m{id}.avro"),
        summary: Summary {
            operation,
            additional_properties,
        },
        schema_id: None,
        first_row_id: None,
        added_rows: None,
    }
}

fn sample_metadata() -> TableMetadata {
    let mut refs = StringMap::new();
    refs.insert(
        "main".to_string(),
        SnapshotReference {
            snapshot_id: 2,
            retention: SnapshotRetention::Branch {
                min_snapshots_to_keep: Some(10),
                max_snapshot_age_ms: Some(86_400_000),
                max_ref_age_ms: Some(1_728_000_000),
            },
        },
    );
    refs.insert(
        "v1".to_string(),
        SnapshotReference {
            snapshot_id: 1,
            retention: SnapshotRetention::Tag {
                max_ref_age_ms: Some(1000),
            },
        },
    );
    TableMetadata {
        format_version: FormatVersion::V2,
        table_uuid: None,
        location: "s3://bucket/tbl".to_string(),
        last_sequence_number: 0,
        last_updated_ms: 0,
        last_column_id: 0,
        schemas: vec![Schema {
            schema_id: 0,
            fields: vec![],
            highest_field_id: 0,
            min_format_version: FormatVersion::V1,
        }],
        current_schema_id: 0,
        partition_specs: vec![PartitionSpec {
            spec_id: 0,
            fields: vec![],
        }],
        default_spec_id: 0,
        last_partition_id: 0,
        properties: StringMap::new(),
        current_snapshot_id: None,
        next_row_id: None,
        snapshots: vec![
            snapshot(1, None, Operation::Append),
            snapshot(2, Some(1), Operation::Overwrite),
        ],
        snapshot_log: vec![],
        metadata_log: vec![],
        default_sort_order_id: None,
        refs,
        statistics: vec![],
        partition_statistics: vec![],
    }
}

#[test]
fn snapshots_metadata_table_materializes_rows() {
    let provider =
        IcebergMetadataTableProvider::new(sample_metadata(), IcebergMetadataTableType::Snapshots);
    let rows = match provider.build_rows().unwrap() {
        MetadataTableRows::Snapshots { snapshots } => snapshots,
        other => panic!("unexpected rows: {other:?}"),
    };
    assert_eq!(rows.len(), 2);
    assert_eq!(provider.schema()[1], "snapshot_id");
    let ids: Vec<i64> = rows.iter().map(|row| row.snapshot_id).collect();
    assert_eq!(ids, vec![1, 2]);
    assert_eq!(provider.schema()[2], "parent_id");
    assert_eq!(rows[0].parent_id, None);
    assert_eq!(rows[1].parent_id, Some(1));
    // Times are in microseconds, and the operation comes first in the summary.
    assert_eq!(rows[1].committed_at, 2_000_000);
    assert_eq!(rows[1].operation, "overwrite");
    assert_eq!(
        rows[1].summary[0],
        ("operation".to_string(), "overwrite".to_string())
    );
    let columns = summary_columns(&rows);
    assert_eq!(columns.offsets, vec![0, 2, 4]);
    assert_eq!(columns.keys[3], "added-data-files");
    assert_eq!(columns.values[3], "2");
}

#[test]
fn refs_metadata_table_materializes_rows() {
    let provider =
        IcebergMetadataTableProvider::new(sample_metadata(), IcebergMetadataTableType::Refs);
    let rows = match provider.build_rows().unwrap() {
        MetadataTableRows::Refs { refs } => refs,
        other => panic!("unexpected rows: {other:?}"),
    };
    assert_eq!(rows.len(), 2);
    let mut by_name = std::collections::HashMap::new();
    for row in &rows {
        by_name.insert(row.name.clone(), (row.ref_type.clone(), row.snapshot_id));
    }
    assert_eq!(by_name["main"], ("branch".to_string(), 2));
    assert_eq!(by_name["v1"], ("tag".to_string(), 1));
    assert_eq!(rows[0].min_snapshots_to_keep, Some(10));
    assert_eq!(rows[1].max_reference_age_in_ms, Some(1000));
    assert_eq!(rows[1].max_snapshot_age_in_ms, None);
}

#[test]
fn times_that_do_not_fit_are_not_shown() {
    let mut metadata = sample_metadata();
    metadata.snapshots[0].timestamp_ms = i64::MAX;
    let provider =
        IcebergMetadataTableProvider::new(metadata, IcebergMetadataTableType::Snapshots);
    assert!(provider.build_rows().is_none());
}

use sail::iceberg::conflict_checker::{
    ConflictCheckResult, ConflictChecker, ConflictReason, PartitionKey, TransactionInfo,
    TransactionSchemaChange, WinningCommitSummary,
};
use sail::iceberg::table::{
    DataContentType, DataFile, DataFileFormat, FormatVersion, Operation, PartitionField,
    PartitionSpec, Schema, SchemaField, TableMetadata,
};
use sail::string_map::StringMap;

fn test_partition_key(spec_id: i32, field: &str, value: &str) -> PartitionKey {
    PartitionKey {
        spec_id,
        values: vec![(field.to_string(), value.to_string())],
    }
}

fn test_data_file(path: &str) -> DataFile {
    DataFile {
        content: DataContentType::Data,
        file_path: path.to_string(),
        file_format: DataFileFormat::Parquet,
        partition: vec![],
        record_count: 100,
        file_size_in_bytes: 1000,
        column_sizes: vec![],
        value_counts: vec![],
        null_value_counts: vec![],
        nan_value_counts: vec![],
        lower_bounds: vec![],
        upper_bounds: vec![],
        block_size_in_bytes: None,
        key_metadata: None,
        split_offsets: vec![],
        equality_ids: vec![],
        sort_order_id: None,
        first_row_id: None,
        partition_spec_id: 0,
        referenced_data_file: None,
        content_offset: None,
        content_size_in_bytes: None,
    }
}

fn minimal_table_metadata(table_uuid: Option<u128>) -> TableMetadata {
    TableMetadata {
        format_version: FormatVersion::V2,
        table_uuid,
        location: "s3://dummy/test-table".to_string(),
        last_sequence_number: 0,
        last_updated_ms: 0,
        last_column_id: 1,
        schemas: vec![Schema {
            schema_id: 0,
            fields: vec![SchemaField {
                id: 1,
                name: "col".to_string(),
                field_type: "string".to_string(),
                required: false,
            }],
            highest_field_id: 1,
            min_format_version: FormatVersion::V1,
        }],
        current_schema_id: 0,
        partition_specs: vec![],
        default_spec_id: 0,
        last_partition_id: 0,
        properties: StringMap::new(),
        current_snapshot_id: None,
        next_row_id: None,
        snapshots: vec![],
        snapshot_log: vec![],
        metadata_log: vec![],
        default_sort_order_id: None,
        refs: StringMap::new(),
        statistics: vec![],
        partition_statistics: vec![],
    }
}

fn make_txn(
    operation: Operation,
    added_files: Vec<DataFile>,
    removed_files: Vec<DataFile>,
    partition_values: Vec<PartitionKey>,
    schema_changes: Option<TransactionSchemaChange>,
    table_uuid: Option<u128>,
) -> TransactionInfo {
    TransactionInfo {
        read_metadata: minimal_table_metadata(table_uuid),
        operation,
        added_files,
        removed_files,
        partition_values,
        read_whole_table: false,
        schema_changes,
        requirements: vec![],
        updates: vec![],
    }
}

fn make_winning(
    operation: Operation,
    added_files: Vec<DataFile>,
    removed_files: Vec<DataFile>,
    partition_values: Vec<PartitionKey>,
    schema_changes: Option<TransactionSchemaChange>,
    table_uuid: Option<u128>,
) -> WinningCommitSummary {
    WinningCommitSummary {
        metadata: minimal_table_metadata(table_uuid),
        operation,
        added_files,
        removed_files,
        partition_values,
        schema_changes,
        snapshot_id: 1,
        parent_snapshot_id: None,
    }
}

fn new_uuid() -> u128 {
    uuid::Uuid::new_v4().as_u128()
}

fn schema_change(
    new_schema_id: i32,
    added: &[&str],
    type_changes: &[(&str, &str, &str)],
) -> TransactionSchemaChange {
    TransactionSchemaChange {
        old_schema_id: 0,
        new_schema_id,
        added_columns: added.iter().map(|c| c.to_string()).collect(),
        removed_columns: vec![],
        type_changes: type_changes
            .iter()
            .map(|(c, from, to)| (c.to_string(), from.to_string(), to.to_string()))
            .collect(),
        renames: vec![],
    }
}

#[test]
fn test_table_uuid_changed_detected() {
    let txn = make_txn(Operation::Append, vec![], vec![], vec![], None, Some(new_uuid()));
    let winning = make_winning(Operation::Append, vec![], vec![], vec![], None, Some(new_uuid()));
    let checker = ConflictChecker {
        transaction: txn,
        winning_commit: winning,
    };

    let result = checker.check_table_uuid();
    assert!(result.is_err());
}

#[test]
fn test_table_uuid_same_passes() {
    let uuid_val = new_uuid();
    let txn = make_txn(Operation::Append, vec![], vec![], vec![], None, Some(uuid_val));
    let winning = make_winning(Operation::Append, vec![], vec![], vec![], None, Some(uuid_val));
    let checker = ConflictChecker {
        transaction: txn,
        winning_commit: winning,
    };

    let result = checker.check_table_uuid();
    assert!(result.is_ok());
}

#[test]
fn test_dual_append_same_partition_passes() {
    let partitions = || vec![test_partition_key(0, "col1", "value1")];
    let checker = ConflictChecker {
        transaction: make_txn(
            Operation::Append,
            vec![],
            vec![],
            partitions(),
            None,
            Some(new_uuid()),
        ),
        winning_commit: make_winning(
            Operation::Append,
            vec![],
            vec![],
            partitions(),
            None,
            Some(new_uuid()),
        ),
    };

    let result = checker.check_partition_conflicts();
    assert!(result.is_ok());
}

#[test]
fn test_append_and_overwrite_same_partition_conflicts() {
    let partitions = || vec![test_partition_key(0, "col1", "value1")];
    let checker = ConflictChecker {
        transaction: make_txn(
            Operation::Append,
            vec![],
            vec![],
            partitions(),
            None,
            Some(new_uuid()),
        ),
        winning_commit: make_winning(
            Operation::Overwrite,
            vec![],
            vec![],
            partitions(),
            None,
            Some(new_uuid()),
        ),
    };

    let result = checker.check_partition_conflicts();
    assert!(result.is_err());
}

#[test]
fn test_different_partitions_passes() {
    let checker = ConflictChecker {
        transaction: make_txn(
            Operation::Overwrite,
            vec![],
            vec![],
            vec![test_partition_key(0, "col1", "valueA")],
            None,
            Some(new_uuid()),
        ),
        winning_commit: make_winning(
            Operation::Overwrite,
            vec![],
            vec![],
            vec![test_partition_key(0, "col1", "valueB")],
            None,
            Some(new_uuid()),
        ),
    };

    let result = checker.check_partition_conflicts();
    assert!(result.is_ok());
}

#[test]
fn test_winning_deletes_file_we_added_conflicts() {
    let checker = ConflictChecker {
        transaction: make_txn(
            Operation::Append,
            vec![test_data_file("/data/file1.parquet")],
            vec![],
            vec![],
            None,
            Some(new_uuid()),
        ),
        winning_commit: make_winning(
            Operation::Delete,
            vec![],
            vec![test_data_file("/data/file1.parquet")],
            vec![],
            None,
            Some(new_uuid()),
        ),
    };

    let result = checker.check_file_conflicts();
    assert!(result.is_err());
}

#[test]
fn test_non_overlapping_files_passes() {
    let checker = ConflictChecker {
        transaction: make_txn(
            Operation::Append,
            vec![test_data_file("/data/file1.parquet")],
            vec![],
            vec![],
            None,
            Some(new_uuid()),
        ),
        winning_commit: make_winning(
            Operation::Delete,
            vec![],
            vec![test_data_file("/data/file2.parquet")],
            vec![],
            None,
            Some(new_uuid()),
        ),
    };

    let result = checker.check_file_conflicts();
    assert!(result.is_ok());
}

#[test]
fn test_concurrent_column_additions_different_names_passes() {
    let checker = ConflictChecker {
        transaction: make_txn(
            Operation::Append,
            vec![],
            vec![],
            vec![],
            Some(schema_change(1, &["col_a"], &[])),
            Some(new_uuid()),
        ),
        winning_commit: make_winning(
            Operation::Append,
            vec![],
            vec![],
            vec![],
            Some(schema_change(2, &["col_b"], &[])),
            Some(new_uuid()),
        ),
    };

    let result = checker.check_schema_compatibility();
    assert!(result.is_ok());
}

#[test]
fn test_concurrent_type_change_conflicts() {
    let checker = ConflictChecker {
        transaction: make_txn(
            Operation::Append,
            vec![],
            vec![],
            vec![],
            Some(schema_change(1, &[], &[("col_a", "int", "bigint")])),
            Some(new_uuid()),
        ),
        winning_commit: make_winning(
            Operation::Append,
            vec![],
            vec![],
            vec![],
            Some(schema_change(2, &[], &[])),
            Some(new_uuid()),
        ),
    };

    let result = checker.check_schema_compatibility();
    assert!(result.is_err());
}

#[test]
fn the_first_conflict_counts() {
    let partitions = || vec![test_partition_key(0, "col1", "value1")];
    let checker = ConflictChecker {
        transaction: make_txn(Operation::Append, vec![], vec![], partitions(), None, Some(1)),
        winning_commit: make_winning(
            Operation::Overwrite,
            vec![],
            vec![],
            partitions(),
            None,
            Some(2),
        ),
    };
    let reason = checker.check_conflicts().unwrap_err();
    assert!(matches!(reason, ConflictReason::TableUuidChanged { .. }));
    assert!(reason
        .message()
        .contains("00000000-0000-0000-0000-000000000001"));

    let checker = ConflictChecker {
        transaction: make_txn(Operation::Append, vec![], vec![], vec![], None, Some(1)),
        winning_commit: make_winning(Operation::Append, vec![], vec![], vec![], None, Some(1)),
    };
    match checker.check_conflicts().unwrap() {
        ConflictCheckResult::NoConflict { updated_metadata } => {
            assert_eq!(updated_metadata.table_uuid, Some(1));
        }
        other => panic!("unexpected result: {other:?}"),
    }
}

#[test]
fn additions_of_the_same_column_conflict() {
    let change = || Some(schema_change(1, &["col \"a\""], &[]));
    let checker = ConflictChecker {
        transaction: make_txn(Operation::Append, vec![], vec![], vec![], change(), Some(1)),
        winning_commit: make_winning(Operation::Append, vec![], vec![], vec![], change(), Some(1)),
    };
    let reason = checker.check_schema_compatibility().unwrap_err();
    // Names are shown as they would be written down.
    assert!(reason.message().contains(r#""col \"a\"""#), "{}", reason.message());
}

#[test]
fn partition_keys_follow_the_spec() {
    let spec = PartitionSpec {
        spec_id: 3,
        fields: vec![PartitionField {
            source_id: 1,
            field_id: 1000,
            name: "day".to_string(),
            transform: "identity".to_string(),
        }],
    };
    let mut file = test_data_file("f");
    file.partition = vec!["2024-01-01".to_string()];
    let key = PartitionKey::from_data_file(&file, &spec);
    assert!(key.same(&test_partition_key(3, "day", "2024-01-01")));
    assert!(!key.same(&test_partition_key(3, "day", "2024-01-02")));
}

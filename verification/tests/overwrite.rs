use sail::iceberg::commit::parents::ParentManifests;
use sail::iceberg::overwrite::{OverwriteAction, StoreContext};
use sail::iceberg::table::{DataContentType, DataFile, DataFileFormat, Operation};

fn dummy_data_file(path: &str) -> DataFile {
    DataFile {
        content: DataContentType::Data,
        file_path: path.to_string(),
        file_format: DataFileFormat::Parquet,
        partition: vec![],
        record_count: 0,
        file_size_in_bytes: 0,
        column_sizes: Default::default(),
        value_counts: Default::default(),
        null_value_counts: Default::default(),
        nan_value_counts: Default::default(),
        lower_bounds: Default::default(),
        upper_bounds: Default::default(),
        block_size_in_bytes: None,
        key_metadata: None,
        split_offsets: vec![],
        equality_ids: vec![],
        sort_order_id: None,
        first_row_id: None,
        partition_spec_id: 0,
        referenced_data_file: None,
        content_offset: None,
        content_size_in_bytes: None,
    }
}

#[test]
fn test_overwrite_action_new() {
    let action = OverwriteAction::new();
    assert!(action.added_data_files.is_empty());
    assert!(action.store_ctx.is_none());
    assert!(action.manifest_metadata.is_none());
    assert!(action.row_lineage_start_row_id.is_none());
    assert!(action.parent_manifest_entries.is_none());
}

#[test]
fn test_overwrite_action_add_file() {
    let mut action = OverwriteAction::new();
    assert_eq!(action.added_data_files.len(), 0);
    action.add_file(dummy_data_file("file1.parquet"));
    assert_eq!(action.added_data_files.len(), 1);
    action.add_file(dummy_data_file("file2.parquet"));
    assert_eq!(action.added_data_files.len(), 2);
}

#[test]
fn test_overwrite_action_builders() {
    let action = OverwriteAction::new()
        .with_row_lineage_start_row_id(Some(42))
        .with_parent_manifest_entries(Some(vec![]));
    assert_eq!(action.row_lineage_start_row_id, Some(42));
    assert!(action.parent_manifest_entries.is_some());
    assert!(action.parent_manifest_entries.unwrap().is_empty());
}

#[test]
fn test_overwrite_action_default() {
    let action = OverwriteAction::default();
    assert!(action.added_data_files.is_empty());
    assert!(action.store_ctx.is_none());
}

#[test]
fn test_overwrite_action_add_file_chain() {
    let mut action = OverwriteAction::new().with_row_lineage_start_row_id(Some(99));
    action.add_file(dummy_data_file("a.parquet"));
    action.add_file(dummy_data_file("b.parquet"));
    assert_eq!(action.row_lineage_start_row_id, Some(99));
    assert_eq!(action.added_data_files.len(), 2);
    assert_eq!(action.added_data_files[0].file_path, "a.parquet");
    assert_eq!(action.added_data_files[1].file_path, "b.parquet");
}

#[test]
fn overwrites_carry_no_parent_manifest_forward_unless_told() {
    let mut action = OverwriteAction::new().with_store_context(StoreContext {
        table_url: "s3://bucket/tbl".to_string(),
    });
    action.add_file(dummy_data_file("a.parquet"));
    let production = action.production();
    assert_eq!(production.operation, Operation::Overwrite);
    assert_eq!(production.added_data_files.len(), 1);
    assert_eq!(production.store_ctx.unwrap().table_url, "s3://bucket/tbl");
    match production.parents {
        ParentManifests::Only { entries } => assert!(entries.is_empty()),
        other => panic!("unexpected parents: {other:?}"),
    }
}

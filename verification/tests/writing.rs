use sail::iceberg::table::SchemaField;
use sail::iceberg::write::alignment::{
    align_batch_with_table_schema, ColumnSource, DefaultedField, TableColumn,
};
use sail::iceberg::write::data_file_writer::{
    aggregate_from_parquet_metadata, aggregate_from_parquet_metadata_with_field_map,
    field_id_map, totals_by_field, ColumnChunk, DataFileWriter, ParquetFileMeta, RowGroup,
    SumOverflow,
};
use sail::iceberg::write::partition_writer::{
    data_file_location, needs_roll, new_partition_writer_state, resolved_location,
    write_partition_state, BatchAction, PartitionWriterState, WriterConfig,
};
use sail::iceberg::write::settings::{
    build_writer_properties, ColumnSetting, Compression, EnabledStatistics, SettingError,
    WriterSettings,
};
use sail::iceberg::write::table_writer::IcebergTableWriter;

fn props(pairs: &[(&str, &str)]) -> Vec<(String, String)> {
    pairs
        .iter()
        .map(|(k, v)| (k.to_string(), v.to_string()))
        .collect()
}

fn settings(pairs: &[(&str, &str)]) -> Result<WriterSettings, SettingError> {
    compressed_settings(pairs, Compression::Zstd { level: 1 })
}

fn compressed_settings(
    pairs: &[(&str, &str)],
    compression: Compression,
) -> Result<WriterSettings, SettingError> {
    let properties = props(pairs);
    let rates = properties
        .iter()
        .map(|(_, v)| v.trim().parse::<f64>().is_ok())
        .collect();
    build_writer_properties(&properties, &rates, compression)
}

#[test]
fn build_writer_properties_sets_sizes() {
    let properties = compressed_settings(
        &[
            ("write.parquet.row-group-size-bytes", "67108864"),
            ("write.parquet.page-size-bytes", "1048576"),
            ("write.parquet.dict-size-bytes", "524288"),
        ],
        Compression::Snappy,
    )
    .unwrap();
    assert_eq!(properties.compression, Compression::Snappy);
    assert_eq!(properties.max_row_group_bytes, Some(67_108_864));
    assert_eq!(properties.data_page_size_limit, Some(1_048_576));
    assert_eq!(properties.dictionary_page_size_limit, Some(524_288));
}

#[test]
fn build_writer_properties_sets_table_wide_statistics() {
    let properties = settings(&[("write.metadata.metrics.default", "none")]).unwrap();
    assert_eq!(properties.statistics, Some(EnabledStatistics::Off));

    let properties = settings(&[("write.metadata.metrics.default", "full")]).unwrap();
    assert_eq!(properties.statistics, Some(EnabledStatistics::Page));
}

#[test]
fn build_writer_properties_sets_per_column_stats_and_bloom() {
    let properties = settings(&[
        ("write.parquet.stats-enabled.column.name", "false"),
        ("write.parquet.bloom-filter-enabled.column.name", "true"),
        ("write.parquet.bloom-filter-fpp.column.name", "0.01"),
        ("write.parquet.bloom-filter-ndv.column.name", "5000"),
    ])
    .unwrap();
    assert_eq!(properties.columns.len(), 4);
    for setting in &properties.columns {
        match setting {
            ColumnSetting::Statistics { column, level } => {
                assert_eq!(column, "name");
                assert_eq!(*level, EnabledStatistics::Off);
            }
            ColumnSetting::BloomFilterEnabled { column, enabled } => {
                assert_eq!(column, "name");
                assert!(*enabled);
            }
            ColumnSetting::BloomFilterFpp { column, rate } => {
                assert_eq!(column, "name");
                assert_eq!(rate.parse::<f64>().unwrap(), 0.01);
            }
            ColumnSetting::BloomFilterNdv { column, count } => {
                assert_eq!(column, "name");
                assert_eq!(*count, 5000);
            }
        }
    }
}

#[test]
fn build_writer_properties_ignores_unknown_keys() {
    let properties = compressed_settings(
        &[("write.parquet.unknown-key", "123"), ("some.other", "x")],
        Compression::Uncompressed,
    )
    .unwrap();
    assert_eq!(properties.compression, Compression::Uncompressed);
    assert_eq!(properties.max_row_group_bytes, None);
    assert_eq!(properties.statistics, None);
    assert!(properties.columns.is_empty());
}

#[test]
fn build_writer_properties_rejects_invalid_values() {
    let rejects = |pair: (&str, &str)| compressed_settings(&[pair], Compression::Snappy).is_err();
    assert!(rejects(("write.metadata.metrics.default", "bogus")));
    assert!(rejects(("write.parquet.stats-enabled.column.id", "notabool")));
    assert!(rejects(("write.parquet.row-group-size-bytes", "abc")));
}

#[test]
fn settings_are_read_without_regard_to_case_and_space() {
    let properties = settings(&[
        ("Write.Metadata.Metrics.Default", " COUNTS "),
        ("WRITE.PARQUET.PAGE-SIZE-BYTES", " 7 "),
    ])
    .unwrap();
    assert_eq!(properties.statistics, Some(EnabledStatistics::Chunk));
    assert_eq!(properties.data_page_size_limit, Some(7));
    // The first of several properties counts.
    let properties = settings(&[
        ("write.parquet.page-size-bytes", "1"),
        ("write.parquet.page-size-bytes", "2"),
    ])
    .unwrap();
    assert_eq!(properties.data_page_size_limit, Some(1));
}

#[test]
fn setting_errors_say_what_is_wrong() {
    let error = settings(&[("write.metadata.metrics.default", "Bogus")]).unwrap_err();
    assert_eq!(
        error.message(),
        "invalid write.metadata.metrics.default: bogus (expected none|counts|full)"
    );
    let error = settings(&[("write.parquet.dict-size-bytes", "-1")]).unwrap_err();
    assert_eq!(error.message(), "invalid write.parquet.dict-size-bytes: -1");
    let error = settings(&[("write.parquet.bloom-filter-fpp.column.c", "x")]).unwrap_err();
    assert_eq!(
        error.message(),
        "invalid write.parquet.bloom-filter-fpp.column.c: x"
    );
}

fn chunk(path: &str, leaf_id: Option<i32>, root_id: Option<i32>, size: u64) -> ColumnChunk {
    ColumnChunk {
        path: path.to_string(),
        leaf_id,
        root_id,
        compressed_size: size,
        num_values: 10,
        null_count: Some(1),
    }
}

fn row_groups() -> Vec<RowGroup> {
    vec![
        RowGroup {
            file_offset: Some(4),
            columns: vec![
                chunk("a", Some(1), None, 100),
                chunk("s.b", None, Some(2), 200),
                chunk("c", None, None, 400),
            ],
        },
        RowGroup {
            file_offset: None,
            columns: vec![chunk("a", Some(1), Some(9), 50)],
        },
    ]
}

#[test]
fn parquet_counts_add_up_by_field() {
    let metadata = aggregate_from_parquet_metadata(&row_groups()).unwrap();
    assert_eq!(metadata.column_sizes, vec![(1, 150), (2, 200)]);
    assert_eq!(metadata.value_counts, vec![(1, 20), (2, 10)]);
    assert_eq!(metadata.null_value_counts, vec![(1, 2), (2, 1)]);
    assert_eq!(metadata.split_offsets, vec![4]);
}

#[test]
fn parquet_counts_add_up_by_name() {
    let field = |id: i32, name: &str| SchemaField {
        id,
        name: name.to_string(),
        field_type: "int".to_string(),
        required: false,
    };
    let map = field_id_map(&vec![field(11, "a"), field(12, "b")]);
    let metadata = aggregate_from_parquet_metadata_with_field_map(&row_groups(), &map).unwrap();
    assert_eq!(metadata.column_sizes, vec![(11, 150), (12, 200)]);
}

#[test]
fn counts_that_do_not_fit_are_refused() {
    assert_eq!(
        totals_by_field(&vec![(1, u64::MAX), (1, 1)]),
        Err(SumOverflow)
    );
    assert_eq!(
        totals_by_field(&vec![(1, 3), (2, 4), (1, 5)]),
        Ok(vec![(1, 8), (2, 4)])
    );
}

#[test]
fn data_files_describe_what_was_written() {
    let writer = DataFileWriter::new(3, "s3://f".to_string(), vec!["x".to_string()]);
    let meta = ParquetFileMeta {
        num_rows: 7,
        file_size: 1_000,
        row_groups: row_groups(),
    };
    let file = writer.finish(meta).unwrap().data_file;
    assert_eq!(file.partition_spec_id, 3);
    assert_eq!(file.file_path, "s3://f");
    assert_eq!(file.partition, vec!["x".to_string()]);
    assert_eq!(file.record_count, 7);
    assert_eq!(file.file_size_in_bytes, 1_000);
    assert_eq!(file.column_sizes, vec![(1, 150), (2, 200)]);
    assert!(file.lower_bounds.is_empty());
}

#[test]
fn columns_come_from_the_batch_or_a_default() {
    let batch = vec!["b".to_string(), "a".to_string()];
    let column = |name: &str, nullable: bool| TableColumn {
        name: name.to_string(),
        nullable,
    };
    let field = |name: &str, write: Option<&str>, initial: Option<&str>| DefaultedField {
        name: name.to_string(),
        write_default: write.map(|v| v.to_string()),
        initial_default: initial.map(|v| v.to_string()),
    };
    let fields = vec![
        field("w", Some("1"), Some("2")),
        field("i", None, Some("3")),
        field("n", None, None),
    ];
    let sources = align_batch_with_table_schema(
        &batch,
        &vec![
            column("a", false),
            column("w", false),
            column("i", false),
            column("n", true),
        ],
        &fields,
    )
    .unwrap();
    assert!(matches!(sources[0], ColumnSource::Batch { index: 1 }));
    assert!(matches!(&sources[1], ColumnSource::DefaultValue { literal } if literal == "1"));
    assert!(matches!(&sources[2], ColumnSource::DefaultValue { literal } if literal == "3"));
    assert!(matches!(sources[3], ColumnSource::Null));

    let error = align_batch_with_table_schema(&batch, &vec![column("n", false)], &fields);
    assert_eq!(
        error.unwrap_err().message(),
        "Column 'n' is required but missing in input batch and has no default value"
    );
    let error = align_batch_with_table_schema(&batch, &vec![column("z", true)], &fields);
    assert_eq!(
        error.unwrap_err().message(),
        "Column 'z' missing from Iceberg schema during alignment"
    );
}

fn config(shredding_enabled: bool, inference_buffer_size: usize) -> WriterConfig {
    WriterConfig {
        target_file_size: 100,
        shredding_enabled,
        inference_buffer_size,
    }
}

#[test]
fn rows_are_held_back_for_shredding() {
    let config = config(true, 10);
    let state = new_partition_writer_state(&config);
    assert_eq!(state, PartitionWriterState::Pending { num_rows: 0 });
    let (state, action) = write_partition_state(&config, state, 9);
    assert_eq!(action, BatchAction::Hold);
    assert!(!needs_roll(&config, state, 1_000));
    let (state, action) = write_partition_state(&config, state, 1);
    assert_eq!(action, BatchAction::OpenAndWrite);
    let (state, action) = write_partition_state(&config, state, 1);
    assert_eq!(action, BatchAction::Write);
    assert!(needs_roll(&config, state, 100));
    assert!(!needs_roll(&config, state, 99));
}

#[test]
fn one_row_is_enough_without_a_buffer() {
    let config = config(true, 0);
    let state = new_partition_writer_state(&config);
    let (state, action) = write_partition_state(&config, state, 0);
    assert_eq!(action, BatchAction::Hold);
    assert_eq!(
        write_partition_state(&config, state, 1).1,
        BatchAction::OpenAndWrite
    );
}

#[test]
fn data_files_are_located_below_the_table() {
    assert_eq!(
        data_file_location("s3://bucket/tbl/data/", "day=1/f.parquet"),
        "s3://bucket/tbl/data/day=1/f.parquet"
    );
    // A colon in the first part is not that of a scheme.
    assert_eq!(
        data_file_location("s3://bucket/tbl/data/", "t=10:00/f.parquet"),
        "s3://bucket/tbl/data/t=10:00/f.parquet"
    );
    assert_eq!(data_file_location("no base ", "f"), "no base f");
    assert_eq!(resolved_location("a/", "b", Err("no".to_string())), "a/b");
    assert_eq!(resolved_location("a/", "b", Ok("c".to_string())), "c");
}

#[test]
fn each_partition_has_its_own_writer() {
    let mut writer = IcebergTableWriter::new(config(false, 0), 2, "s3://b/t/".to_string());
    let one = || vec!["1".to_string()];
    let two = || vec!["2".to_string()];
    assert!(writer.can_count(&one(), 5));
    assert_eq!(
        writer.begin_batch(one(), "day=1".to_string(), 5),
        BatchAction::Write
    );
    assert_eq!(writer.end_batch(&one(), 99), None);
    assert_eq!(
        writer.begin_batch(two(), "day=2".to_string(), 5),
        BatchAction::Write
    );
    // A file that is large enough is closed.
    assert_eq!(writer.end_batch(&two(), 100), Some("day=2".to_string()));
    assert_eq!(writer.end_batch(&two(), 100), None);
    let meta = ParquetFileMeta {
        num_rows: 5,
        file_size: 100,
        row_groups: vec![],
    };
    writer.record("day=2/f.parquet", two(), meta).unwrap();
    let open = writer.take_open();
    assert_eq!(open.len(), 1);
    assert_eq!(open[0].0, one());
    assert_eq!(open[0].1.partition_dir, "day=1");
    let written = writer.close();
    assert_eq!(written.len(), 1);
    assert_eq!(written[0].file_path, "s3://b/t/day=2/f.parquet");
    assert_eq!(written[0].partition_spec_id, 2);
    assert_eq!(written[0].record_count, 5);
    assert_eq!(written[0].sort_order_id, None);
    assert_eq!(written[0].first_row_id, None);
}

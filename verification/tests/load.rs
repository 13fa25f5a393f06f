use sail::affix::{
    ends_with_ignore_case, find_char, find_last_char, strip_prefix, to_lower, trim,
};
use sail::iceberg::ancestry::is_current_ancestor;
use sail::iceberg::load::{
    build_fallback_scan, group_by_format, infer_source_compression, infer_source_format,
    is_single_file, load_shape, load_target, located_files, repartitions_for_load,
    resolve_source_files, schema_matches, select_files, single_source, source_url, split_glob,
    split_sources, ClassifiedFiles, ColumnType, Footer, FooterStats, IcebergLoadDataFastExec,
    SnapshotUpdateKind, SourceCompression, SourceFile, SourceFormat,
};
use sail::iceberg::table::{
    FormatVersion, Operation, PartitionField, PartitionSpec, Schema, Snapshot, Summary,
    TableMetadata,
};
use sail::number::{parse_i32, parse_i64, parse_u64};
use sail::ordered::{sort_by_key, sort_texts};
use sail::shown::{list_text, quoted_list_text};
use sail::string_map::StringMap;

fn files(list: &[(&str, u64)]) -> Vec<(String, u64)> {
    list.iter()
        .map(|(path, size)| (path.to_string(), *size))
        .collect()
}

#[test]
fn locations_are_files_directories_or_patterns() {
    assert!(is_single_file("s3://b/f.csv"));
    assert!(!is_single_file("s3://b/d/"));
    assert!(!is_single_file("s3://b/*.csv"));
    assert_eq!(
        split_glob("s3://b/d/*.csv"),
        ("s3://b/d/".to_string(), Some(".csv".to_string()))
    );
    assert_eq!(split_glob("s3://b/d/**"), ("s3://b/d/".to_string(), None));
    assert_eq!(split_glob("s3://b/d"), ("s3://b/d/".to_string(), None));
    assert_eq!(split_glob("s3://b/d/"), ("s3://b/d/".to_string(), None));
}

#[test]
fn listed_files_are_resolved_in_order() {
    let listed = files(&[("d/b.csv", 2), ("d/c.json", 3), ("d/a.csv", 1)]);
    let found = resolve_source_files("s3://bucket/d/*.csv", listed).unwrap();
    let urls: Vec<&str> = found.iter().map(|f| f.url.as_str()).collect();
    assert_eq!(urls, vec!["s3://bucket/d/a.csv", "s3://bucket/d/b.csv"]);
    assert_eq!(found[0].key, "d/a.csv");
    assert_eq!(found[1].size, 2);
    let error = resolve_source_files("nowhere/*.csv", vec![]).unwrap_err();
    assert!(error
        .message()
        .starts_with("invalid source location 'nowhere/': "));
}

#[test]
fn files_without_a_location_are_refused() {
    let selected = || files(&[("b", 1), ("a", 2)]);
    let urls = vec![Ok("x:b".to_string()), Ok("x:a".to_string())];
    let located = located_files(selected(), urls).unwrap();
    assert_eq!(located[0].url, "x:a");
    let urls = vec![Ok("x:b".to_string()), Err("no".to_string())];
    assert_eq!(
        located_files(selected(), urls).unwrap_err().message(),
        "failed to resolve source URL for a: no"
    );
    assert_eq!(
        select_files(selected(), &Some("a".to_string())),
        files(&[("a", 2)])
    );
}

#[test]
fn sources_are_read_before_the_first_star() {
    assert_eq!(source_url("s3://bucket/d/*.csv").unwrap(), "s3://bucket/d/");
    assert_eq!(source_url("s3://bucket").unwrap(), "s3://bucket");
    assert!(source_url("d/*.csv")
        .unwrap_err()
        .message()
        .starts_with("invalid source location 'd/*.csv': "));
    let file = single_source("s3://b/f", "f".to_string(), "s3://b/f".to_string(), Ok(3)).unwrap();
    assert_eq!(file.size, 3);
    let missing = single_source(
        "s3://b/f",
        "f".to_string(),
        "s3://b/f".to_string(),
        Err("not there".to_string()),
    );
    assert_eq!(
        missing.unwrap_err().message(),
        "source path does not exist: s3://b/f: not there"
    );
}

#[test]
fn fallback_scans_read_each_file() {
    let scan = build_fallback_scan(&files(&[
        ("s3://bucket/d/a.csv.gz", 1_000_000),
        ("s3://bucket/d/b b.csv.gz", 2_000_000),
    ]))
    .unwrap();
    assert_eq!(scan.store_url, "s3://bucket");
    assert_eq!(scan.compression, SourceCompression::Gzip);
    assert_eq!(
        scan.file_groups,
        vec![
            files(&[("s3://bucket/d/a.csv.gz", 1_000_000)]),
            files(&[("s3://bucket/d/b%20b.csv.gz", 2_000_000)]),
        ]
    );
    let error = build_fallback_scan(&files(&[("a.csv", 1)])).unwrap_err();
    assert_eq!(
        error.message(),
        "invalid file URL: relative URL without a base"
    );
}

#[test]
fn small_csv_files_keep_one_group_per_file() {
    let sizes: [u64; 3] = [1_000_000, 2_000_000, 3_000_000];
    let sources: Vec<(String, u64)> = sizes
        .iter()
        .enumerate()
        .map(|(i, size)| (format!("memory:///small/f{i}.csv"), *size))
        .collect();
    let scan = build_fallback_scan(&sources).unwrap();
    assert_eq!(scan.compression, SourceCompression::Uncompressed);
    assert_eq!(scan.file_groups.len(), 3);
    for (group, source) in scan.file_groups.iter().zip(&sources) {
        assert_eq!(group.len(), 1);
        assert_eq!(&group[0], source);
    }
}

#[test]
fn large_compressed_csv_files_are_not_range_split() {
    let sizes: [u64; 2] = [300_000_000, 300_000_000];
    let sources: Vec<(String, u64)> = sizes
        .iter()
        .enumerate()
        .map(|(i, size)| (format!("memory:///compressed/f{i}.csv.gz"), *size))
        .collect();
    let scan = build_fallback_scan(&sources).unwrap();
    assert_eq!(scan.compression, SourceCompression::Gzip);
    assert_eq!(scan.file_groups.len(), 2);
    for (group, source) in scan.file_groups.iter().zip(&sources) {
        assert_eq!(group.len(), 1);
        assert_eq!(&group[0], source);
    }
}

#[test]
fn unpartitioned_load_skips_write_repartition() {
    assert!(!repartitions_for_load(&vec![]));
}

#[test]
fn partitioned_load_keeps_hash_repartition() {
    assert!(repartitions_for_load(&vec!["p".to_string()]));
}

#[test]
fn names_tell_format_and_compression() {
    assert_eq!(infer_source_format("a.JSONL"), SourceFormat::Json);
    assert_eq!(infer_source_format("a.json"), SourceFormat::Json);
    assert_eq!(infer_source_format("a.parquet"), SourceFormat::Parquet);
    assert_eq!(infer_source_format("a.unknown"), SourceFormat::Csv);
    assert_eq!(infer_source_compression("a.csv.BZ2"), SourceCompression::Bzip2);
    assert_eq!(infer_source_compression("a.csv.xz"), SourceCompression::Xz);
    assert_eq!(infer_source_compression("a.csv.zst"), SourceCompression::Zstd);
    assert_eq!(
        infer_source_compression("a.csv"),
        SourceCompression::Uncompressed
    );
    let groups = group_by_format(files(&[
        ("a.csv", 1),
        ("b.json", 2),
        ("c.csv", 3),
        ("d.csv.gz", 4),
    ]));
    assert_eq!(groups.len(), 3);
    assert_eq!(groups[0].files, files(&[("a.csv", 1), ("c.csv", 3)]));
    assert_eq!(groups[2].compression, SourceCompression::Gzip);
}

fn columns(list: &[(&str, &str)]) -> Vec<ColumnType> {
    list.iter()
        .map(|(name, data_type)| ColumnType {
            name: name.to_string(),
            data_type: data_type.to_string(),
        })
        .collect()
}

fn stats(row_count: u64) -> FooterStats {
    FooterStats {
        row_count,
        file_size: 10,
        column_sizes: vec![(1, 10)],
        value_counts: vec![(1, row_count)],
        null_value_counts: vec![],
        lower_bounds: vec![],
        upper_bounds: vec![],
        split_offsets: vec![4],
    }
}

#[test]
fn matching_files_are_added_as_they_are() {
    let table = columns(&[("id", "int"), ("name", "string")]);
    assert!(schema_matches(
        &columns(&[("name", "string"), ("id", "int"), ("more", "int")]),
        &table
    ));
    assert!(!schema_matches(
        &columns(&[("name", "string"), ("id", "long")]),
        &table
    ));
    let mut classified = ClassifiedFiles::new();
    let read = Footer::Read {
        columns: columns(&[("id", "int"), ("name", "string")]),
        stats: Some(stats(7)),
    };
    classified.place("fast".to_string(), 10, read, &table, 2);
    let other = Footer::Read {
        columns: columns(&[("id", "int")]),
        stats: Some(stats(7)),
    };
    classified.place("slow".to_string(), 11, other, &table, 2);
    classified.place("broken".to_string(), 12, Footer::Unreadable, &table, 2);
    assert_eq!(classified.fast_files.len(), 1);
    assert_eq!(classified.fast_files[0].file_path, "fast");
    assert_eq!(classified.fast_files[0].record_count, 7);
    assert_eq!(classified.fast_files[0].partition_spec_id, 2);
    assert_eq!(
        classified.fallback_files,
        files(&[("slow", 11), ("broken", 12)])
    );
    let exec = IcebergLoadDataFastExec::new(
        classified.fast_files,
        "s3://b/t".to_string(),
        vec![],
        vec![],
        None,
    );
    assert_eq!(exec.row_count(), 7);
    let (written, meta) = exec.into_output(Operation::Append);
    assert_eq!(written.len(), 1);
    assert_eq!(meta.row_count, 7);
    assert_eq!(meta.table_uri, "s3://b/t");
}

#[test]
fn only_parquet_files_are_candidates() {
    let source = |name: &str| SourceFile {
        key: name.to_string(),
        url: format!("s3://b/{name}"),
        size: 1,
    };
    let split = split_sources(vec![source("a.parquet"), source("b.csv")], true);
    assert_eq!(split.candidates.len(), 1);
    assert_eq!(split.rewritten, files(&[("s3://b/b.csv", 1)]));
    let split = split_sources(vec![source("a.parquet")], false);
    assert!(split.candidates.is_empty());
    assert!(load_shape(1, 2).adds_files);
    assert_eq!(load_shape(1, 2).writers, 2);
}

fn metadata(partitioned: bool) -> TableMetadata {
    let snapshot = |id: i64, parent: Option<i64>| Snapshot {
        snapshot_id: id,
        parent_snapshot_id: parent,
        sequence_number: id,
        timestamp_ms: id,
        manifest_list: "l".to_string(),
        summary: Summary {
            operation: Operation::Append,
            additional_properties: StringMap::new(),
        },
        schema_id: None,
        first_row_id: None,
        added_rows: None,
    };
    TableMetadata {
        format_version: FormatVersion::V2,
        table_uuid: None,
        location: "s3://b/t".to_string(),
        last_sequence_number: 0,
        last_updated_ms: 0,
        last_column_id: 5,
        schemas: vec![Schema {
            schema_id: 3,
            fields: vec![],
            highest_field_id: 5,
            min_format_version: FormatVersion::V1,
        }],
        current_schema_id: 3,
        partition_specs: vec![PartitionSpec {
            spec_id: 8,
            fields: if partitioned {
                vec![PartitionField {
                    source_id: 1,
                    field_id: 1000,
                    name: "day".to_string(),
                    transform: "identity".to_string(),
                }]
            } else {
                vec![]
            },
        }],
        default_spec_id: 8,
        last_partition_id: 0,
        properties: StringMap::new(),
        current_snapshot_id: Some(2),
        next_row_id: None,
        snapshots: vec![snapshot(1, None), snapshot(2, Some(1)), snapshot(3, None)],
        snapshot_log: vec![],
        metadata_log: vec![],
        default_sort_order_id: None,
        refs: StringMap::new(),
        statistics: vec![],
        partition_statistics: vec![],
    }
}

#[test]
fn loads_follow_the_table() {
    let target = load_target(&metadata(false), true).unwrap();
    assert_eq!(target.spec_id, 8);
    assert!(target.allow_fast);
    assert_eq!(target.requirements.len(), 2);
    assert_eq!(target.update_kind, SnapshotUpdateKind::FullOverwrite);
    let target = load_target(&metadata(true), false).unwrap();
    assert!(!target.allow_fast);
    assert_eq!(target.update_kind, SnapshotUpdateKind::FastAppend);
    let mut broken = metadata(true);
    broken.schemas = vec![];
    assert_eq!(
        load_target(&broken, false).unwrap_err().message(),
        "LOAD DATA: table has no current schema"
    );
}

#[test]
fn ancestors_lead_to_the_current_snapshot() {
    let table = metadata(false);
    assert!(is_current_ancestor(&table, 1));
    assert!(is_current_ancestor(&table, 2));
    assert!(!is_current_ancestor(&table, 3));
}

#[test]
fn numbers_are_read() {
    assert_eq!(parse_i64("-9223372036854775808"), Some(i64::MIN));
    assert_eq!(parse_i64("9223372036854775808"), None);
    assert_eq!(parse_i64("+7"), Some(7));
    assert_eq!(parse_i64(""), None);
    assert_eq!(parse_i64("-"), None);
    assert_eq!(parse_i32("2147483648"), None);
    assert_eq!(parse_i32("12a"), None);
    assert_eq!(parse_u64("18446744073709551615"), Some(u64::MAX));
    assert_eq!(parse_u64("-1"), None);
    assert_eq!(parse_u64("+1"), Some(1));
}

#[test]
fn texts_are_taken_apart() {
    assert!(ends_with_ignore_case("a.CSV", ".csv"));
    assert_eq!(find_char("aäb*", '*'), Some(3));
    assert_eq!(find_last_char("a/b/c", 5, '/'), Some(3));
    assert_eq!(find_last_char("a/b/c", 3, '/'), Some(1));
    assert_eq!(strip_prefix("write.x", "write."), Some("x".to_string()));
    assert_eq!(strip_prefix("x", "write."), None);
    assert_eq!(trim("\u{2003} a b \n"), "a b");
    assert_eq!(to_lower("@AbYZ[Ä"), "@abyz[Ä");
}

#[test]
fn texts_are_ordered_and_shown() {
    let texts = |list: &[&str]| -> Vec<String> { list.iter().map(|t| t.to_string()).collect() };
    assert_eq!(
        sort_texts(texts(&["b", "B", "ä", "a"])),
        texts(&["B", "a", "b", "ä"])
    );
    assert_eq!(
        sort_by_key(vec![
            ("b".to_string(), 1),
            ("a".to_string(), 2),
            ("b".to_string(), 0)
        ]),
        vec![
            ("a".to_string(), 2),
            ("b".to_string(), 1),
            ("b".to_string(), 0)
        ]
    );
    assert_eq!(list_text(&texts(&["a", "b"])), "[a, b]");
    assert_eq!(quoted_list_text(&texts(&["a", "b\n"])), r#"["a", "b\n"]"#);
}

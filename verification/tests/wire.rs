use riverbank::snapshot::{DataFile, Format, Metadata, Protocol, Snapshot};
use riverbank::wire::{file_line, format_json, metadata_line, protocol_line};

fn metadata() -> Metadata {
    Metadata {
        id: "7245fd1d-8a6d-4988-af72-92a95b646511".to_string(),
        format: Format { provider: "parquet".to_string(), options: Some(vec![]) },
        schema_string: "{\"type\":\"struct\",\"fields\":[]}".to_string(),
        partition_columns: vec!["date".to_string()],
    }
}

#[test]
fn protocol_line_is_exact() {
    assert_eq!(
        "{\"protocol\":{\"minReaderVersion\":1}}",
        protocol_line(&Protocol { min_reader_version: 1 })
    );
    assert_eq!(
        "{\"protocol\":{\"minReaderVersion\":-3}}",
        protocol_line(&Protocol { min_reader_version: -3 })
    );
}

#[test]
fn format_with_and_without_options() {
    let bare = Format { provider: "parquet".to_string(), options: None };
    assert_eq!("{\"provider\":\"parquet\",\"options\":null}", format_json(&bare));
    let with = Format {
        provider: "parquet".to_string(),
        options: Some(vec![("compression".to_string(), "snappy".to_string())]),
    };
    assert_eq!(
        "{\"provider\":\"parquet\",\"options\":{\"compression\":\"snappy\"}}",
        format_json(&with)
    );
}

#[test]
fn metadata_line_is_exact() {
    assert_eq!(
        "{\"metaData\":{\"id\":\"7245fd1d-8a6d-4988-af72-92a95b646511\",\"format\":{\"provider\":\"parquet\",\"options\":{}},\"schemaString\":\"{\\\"type\\\":\\\"struct\\\",\\\"fields\\\":[]}\",\"partitionColumns\":[\"date\"]}}",
        metadata_line(&metadata())
    );
}

#[test]
fn metadata_keeps_a_copy() {
    let first = metadata();
    let copy = first.duplicate();
    assert_eq!(first.id, copy.id);
    assert_eq!(first.format.provider, copy.format.provider);
    assert_eq!(first.format.options, copy.format.options);
    assert_eq!(first.schema_string, copy.schema_string);
    assert_eq!(first.partition_columns, copy.partition_columns);
}

#[test]
fn file_line_is_exact() {
    let file = DataFile {
        path: "date=2021-04-28/part-00000-591723a8-6a27-4240-a90e-57426f4736d2.c000.snappy.parquet"
            .to_string(),
        partition_values: vec![("date".to_string(), "2021-04-28".to_string())],
        size: 573,
        stats: Some("{\"numRecords\":1}".to_string()),
    };
    assert_eq!(
        "{\"file\":{\"url\":\"https://example.com/f?sig=1\",\"id\":\"591723a8\",\"partitionValues\":{\"date\":\"2021-04-28\"},\"size\":573,\"stats\":\"{\\\"numRecords\\\":1}\"}}",
        file_line("https://example.com/f?sig=1", &Some("591723a8".to_string()), &file)
    );
}

#[test]
fn file_line_without_id_and_stats() {
    let file = DataFile {
        path: "data.parquet".to_string(),
        partition_values: vec![],
        size: 0,
        stats: None,
    };
    assert_eq!(
        "{\"file\":{\"url\":\"u\",\"id\":null,\"partitionValues\":{},\"size\":0,\"stats\":\"\"}}",
        file_line("u", &None, &file)
    );
}

#[test]
fn validity_of_a_snapshot() {
    let file = |keys: Vec<&str>| DataFile {
        path: "f".to_string(),
        partition_values: keys.iter().map(|k| (k.to_string(), "v".to_string())).collect(),
        size: 1,
        stats: None,
    };
    let snapshot = |format_keys: Option<Vec<&str>>, files: Vec<DataFile>| Snapshot {
        table_uri: "s3://b/t".to_string(),
        version: 1,
        min_reader_version: 1,
        metadata: Metadata {
            id: "m".to_string(),
            format: Format {
                provider: "parquet".to_string(),
                options: format_keys
                    .map(|keys| keys.iter().map(|k| (k.to_string(), "v".to_string())).collect()),
            },
            schema_string: "{}".to_string(),
            partition_columns: vec![],
        },
        files,
    };
    assert!(snapshot(None, vec![]).is_well_formed());
    assert!(snapshot(Some(vec!["a", "b"]), vec![file(vec!["x", "y"]), file(vec![])]).is_well_formed());
    assert!(!snapshot(Some(vec!["b", "a"]), vec![]).is_well_formed());
    assert!(!snapshot(None, vec![file(vec!["x"]), file(vec!["y", "x"])]).is_well_formed());
    assert!(!snapshot(None, vec![file(vec!["x", "x"])]).is_well_formed());
    assert!(file(vec!["a", "b"]).is_well_formed());
    assert!(!file(vec!["b", "a"]).is_well_formed());
    assert!(Format { provider: "p".to_string(), options: None }.is_well_formed());
}

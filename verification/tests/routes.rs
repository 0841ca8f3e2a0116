use riverbank::catalog::Catalog;
use riverbank::error::Error;
use riverbank::models::{file_lines, location_of, signed_line, signing_request, Table};
use riverbank::routes::admin::{
    create_schema, create_table, create_token, download_share, index, share_credentials,
    token_id_of, CreateForm, CreateSchema, CreateTable,
};
use riverbank::routes::v1::{
    latest_version, list_schemas, list_shares, list_tables, locate, query, table_metadata,
};
use riverbank::routes::{failure, ok, redirect};
use riverbank::snapshot::{DataFile, Format, Metadata, Protocol, Snapshot};
use riverbank::state::Tokened;

const NOW: i64 = 1_620_000_000;

fn sample() -> Catalog {
    let mut db = Catalog::new();
    db.add_share(1, "s1", 10).unwrap();
    db.add_share(2, "s2", 20).unwrap();
    db.add_schema(11, "sc1", 1, 30).unwrap();
    db.add_schema(13, "sc3", 2, 50).unwrap();
    db.add_table(101, "t1", "s3://bucket/t1", 11, 60).unwrap();
    db.add_table(102, "t2", "s3://bucket/t2", 11, 70).unwrap();
    db.add_table(104, "t4", "s3://bucket/t4", 13, 90).unwrap();
    db.add_token(1000, "secret", "reader", &[101, 102, 104], NOW).unwrap();
    db.add_token(2000, "nothing", "empty", &[], NOW).unwrap();
    db
}

fn client() -> Tokened {
    Tokened { id: 1000, token: "secret".to_string() }
}

fn snapshot(table_uri: &str) -> Snapshot {
    Snapshot {
        table_uri: table_uri.to_string(),
        version: 12,
        min_reader_version: 1,
        metadata: Metadata {
            id: "m-1".to_string(),
            format: Format { provider: "parquet".to_string(), options: None },
            schema_string: "{}".to_string(),
            partition_columns: vec![],
        },
        files: vec![
            DataFile {
                path: "part-00000-d0ec7722-b30c-4e1c-92cd-b4fe8d3bb954-c000.snappy.parquet"
                    .to_string(),
                partition_values: vec![],
                size: 10,
                stats: None,
            },
            DataFile {
                path: "nested/other.parquet".to_string(),
                partition_values: vec![("k".to_string(), "v".to_string())],
                size: 20,
                stats: Some("{}".to_string()),
            },
        ],
    }
}

fn found() -> Table {
    Table::find("s1", "sc1", "t1", 1000, NOW, &sample()).unwrap()
}

fn region() -> rusoto_core::Region {
    rusoto_core::Region::UsEast1
}

fn credentials() -> rusoto_credential::AwsCredentials {
    rusoto_credential::AwsCredentials::new("AKIDEXAMPLE", "wJalrXUtnFEMI", None, None)
}

#[test]
fn plain_answers() {
    let failed = failure(Error::NotFound);
    assert_eq!(404, failed.status);
    assert!(failed.headers.is_empty());
    assert_eq!("", failed.body);
    let fine = ok("body".to_string());
    assert_eq!(200, fine.status);
    assert!(fine.headers.is_empty());
    assert_eq!("body", fine.body);
    let moved = redirect("/admin");
    assert_eq!(302, moved.status);
    assert_eq!(vec![("Location".to_string(), "/admin".to_string())], moved.headers);
    assert_eq!("", moved.body);
}

#[test]
fn shares_are_listed_by_name() {
    let response = list_shares(&client(), NOW, &sample());
    assert_eq!(200, response.status);
    assert_eq!("{\"items\":[{\"name\":\"s1\"},{\"name\":\"s2\"}]}", response.body);
    let nothing = Tokened { id: 2000, token: "nothing".to_string() };
    assert_eq!("{\"items\":[]}", list_shares(&nothing, NOW, &sample()).body);
}

#[test]
fn schemas_are_listed_with_their_share() {
    let response = list_schemas("s1", &client(), NOW, &sample());
    assert_eq!(200, response.status);
    assert_eq!("{\"items\":[{\"name\":\"sc1\",\"share\":\"s1\"}]}", response.body);
    assert_eq!("{\"items\":[]}", list_schemas("nope", &client(), NOW, &sample()).body);
}

#[test]
fn tables_are_listed_with_share_and_schema() {
    let response = list_tables("s1", "sc1", &client(), NOW, &sample());
    assert_eq!(200, response.status);
    assert_eq!(
        "{\"items\":[{\"name\":\"t1\",\"share\":\"s1\",\"schema\":\"sc1\"},{\"name\":\"t2\",\"share\":\"s1\",\"schema\":\"sc1\"}]}",
        response.body
    );
    let missing = list_tables("s1", "nope", &client(), NOW, &sample());
    assert_eq!(404, missing.status);
    assert_eq!("", missing.body);
}

#[test]
fn version_goes_in_the_header() {
    let response = latest_version(found(), Ok(snapshot("s3://bucket/t1")));
    assert_eq!(200, response.status);
    assert_eq!(vec![("Delta-Table-Version".to_string(), "12".to_string())], response.headers);
    assert_eq!("", response.body);
}

#[test]
fn reader_failure_is_a_server_error() {
    let response = latest_version(found(), Err(Error::UpstreamSnapshot));
    assert_eq!(500, response.status);
    assert!(response.headers.is_empty());
    assert_eq!(500, table_metadata(found(), Err(Error::NotFound)).status);
    assert_eq!(500, query(found(), Err(Error::UpstreamSnapshot), &region(), &credentials()).status);
}

#[test]
fn metadata_answer_has_two_lines() {
    let response = table_metadata(found(), Ok(snapshot("s3://bucket/t1")));
    assert_eq!(200, response.status);
    assert_eq!(vec![("Delta-Table-Version".to_string(), "12".to_string())], response.headers);
    assert_eq!(
        "{\"protocol\":{\"minReaderVersion\":1}}\n{\"metaData\":{\"id\":\"m-1\",\"format\":{\"provider\":\"parquet\",\"options\":null},\"schemaString\":\"{}\",\"partitionColumns\":[]}}",
        response.body
    );
}

#[test]
fn query_answer_has_a_line_for_each_file() {
    let response = query(found(), Ok(snapshot("s3://bucket/t1")), &region(), &credentials());
    assert_eq!(200, response.status);
    assert_eq!(vec![("Delta-Table-Version".to_string(), "12".to_string())], response.headers);
    let lines: Vec<&str> = response.body.split('\n').collect();
    assert_eq!(4, lines.len());
    assert_eq!("{\"protocol\":{\"minReaderVersion\":1}}", lines[0]);
    assert!(lines[1].starts_with("{\"metaData\":{\"id\":\"m-1\""));
    let first: serde_json::Value = serde_json::from_str(lines[2]).unwrap();
    let url = first["file"]["url"].as_str().unwrap();
    assert!(url.starts_with(
        "https://s3.us-east-1.amazonaws.com/bucket/t1/part-00000-d0ec7722-b30c-4e1c-92cd-b4fe8d3bb954-c000.snappy.parquet?"
    ));
    assert!(url.contains("X-Amz-Expires=300"));
    assert!(url.contains("X-Amz-Signature="));
    assert!(url.contains("AKIDEXAMPLE"));
    assert_eq!(Some("d0ec7722-b30c-4e1c-92cd-b4fe8d3bb954"), first["file"]["id"].as_str());
    assert_eq!(Some(10), first["file"]["size"].as_i64());
    assert_eq!(Some(""), first["file"]["stats"].as_str());
    assert_eq!(Some(0), first["file"]["partitionValues"].as_object().map(|o| o.len()));
    let second: serde_json::Value = serde_json::from_str(lines[3]).unwrap();
    assert!(second["file"]["url"]
        .as_str()
        .unwrap()
        .starts_with("https://s3.us-east-1.amazonaws.com/bucket/t1/nested/other.parquet?"));
    assert!(second["file"]["id"].is_null());
    assert_eq!(Some(20), second["file"]["size"].as_i64());
    assert_eq!(Some("{}"), second["file"]["stats"].as_str());
    assert_eq!(Some("v"), second["file"]["partitionValues"]["k"].as_str());
}

#[test]
fn query_of_a_table_without_files() {
    let mut empty = snapshot("s3://bucket/t1");
    empty.files = vec![];
    let response = query(found(), Ok(empty), &region(), &credentials());
    assert_eq!(200, response.status);
    assert_eq!(2, response.body.split('\n').count());
}

#[test]
fn file_outside_s3_fails_the_whole_query() {
    let response = query(found(), Ok(snapshot("/var/data/t1")), &region(), &credentials());
    assert_eq!(500, response.status);
    assert!(response.headers.is_empty());
    assert_eq!("", response.body);
    assert_eq!(
        Err(Error::UpstreamSigning),
        file_lines(&snapshot("file:///var/data/t1"), &region(), &credentials())
    );
    assert_eq!(
        Err(Error::UpstreamSigning),
        file_lines(&snapshot("gs://bucket/t1"), &region(), &credentials())
    );
}

#[test]
fn signs_files_in_order() {
    let lines = file_lines(&snapshot("s3://bucket/t1"), &region(), &credentials()).unwrap();
    assert_eq!(2, lines.len());
    assert!(lines[0].contains("part-00000"));
    assert!(lines[1].contains("other.parquet"));
}

#[test]
fn accessors_need_a_loaded_table() {
    let mut table = found();
    assert_eq!(Err(Error::NotATable), table.delta_version());
    assert_eq!(Err(Error::NotATable), table.protocol());
    assert_eq!(Err(Error::NotATable), table.metadata());
    assert_eq!(Err(Error::NotATable), table.urls(&region(), &credentials()));
    assert_eq!(Err(Error::UpstreamSnapshot), table.load_delta(Err(Error::NotFound)));
    assert!(table.delta_table.is_none());
    assert_eq!(Ok(()), table.load_delta(Ok(snapshot("s3://bucket/t1"))));
    assert_eq!(Ok("12".to_string()), table.delta_version());
    assert_eq!(Ok(Protocol { min_reader_version: 1 }), table.protocol());
    assert_eq!("m-1", table.metadata().unwrap().id);
    assert_eq!(2, table.urls(&region(), &credentials()).unwrap().len());
    assert_eq!(Err(Error::UpstreamSnapshot), table.load_delta(Err(Error::UpstreamSnapshot)));
    assert_eq!(Ok("12".to_string()), table.delta_version());
}

#[test]
fn overview_shows_the_whole_catalog() {
    let mut db = sample();
    db.add_token(3000, "old", "old", &[101], NOW - 2_592_000).unwrap();
    let overview = index(NOW, &db);
    assert_eq!(2, overview.shares.len());
    assert_eq!(2, overview.schemas.len());
    assert_eq!(3, overview.tables.len());
    assert_eq!(2, overview.tokens.len());
    assert_eq!("sc3", overview.tables[2].schema());
}

#[test]
fn token_form_creates_a_token() {
    let mut db = sample();
    let form = CreateForm { name: "fresh".to_string(), tables: vec![101] };
    let response = create_token(Some(form), NOW + 1, &mut db);
    assert_eq!(302, response.status);
    assert_eq!(vec![("Location".to_string(), "/admin".to_string())], response.headers);
    assert_eq!(3, db.tokens.len());
    assert_eq!("fresh", db.tokens[2].name);
    assert_eq!(4, db.grants.len());
}

#[test]
fn token_form_that_did_not_parse_is_passed_over() {
    let mut db = sample();
    let response = create_token(None, NOW, &mut db);
    assert_eq!(302, response.status);
    assert_eq!(sample(), db);
}

#[test]
fn token_form_with_an_unknown_table_changes_nothing() {
    let mut db = sample();
    let form = CreateForm { name: "bad".to_string(), tables: vec![101, 999] };
    let response = create_token(Some(form), NOW, &mut db);
    assert_eq!(404, response.status);
    assert_eq!(sample(), db);
}

#[test]
fn credentials_are_handed_out_by_token_id() {
    let db = sample();
    let response = download_share("00000000-0000-0000-0000-0000000003e8", &None, &db);
    assert_eq!(200, response.status);
    assert_eq!(
        "{\"shareCredentialsVersion\":1,\"bearerToken\":\"secret\",\"endpoint\":\"http://localhost:8000/api/v1\"}",
        response.body
    );
    let elsewhere = Some("https://share.example.com/api/v1".to_string());
    let response = download_share("000000000000000000000000000003e8", &elsewhere, &db);
    assert_eq!(
        "{\"shareCredentialsVersion\":1,\"bearerToken\":\"secret\",\"endpoint\":\"https://share.example.com/api/v1\"}",
        response.body
    );
    assert_eq!(
        response.body,
        share_credentials(&db.tokens[0], &elsewhere)
    );
}

#[test]
fn credentials_of_an_unknown_token() {
    let db = sample();
    assert_eq!(404, download_share("00000000-0000-0000-0000-000000000001", &None, &db).status);
    assert_eq!(500, download_share("not-an-id", &None, &db).status);
    assert_eq!(500, download_share("1000", &None, &db).status);
    assert_eq!(500, download_share("", &None, &db).status);
}

#[test]
fn table_form_creates_a_table() {
    let mut db = sample();
    let form = CreateTable {
        name: "t9".to_string(),
        location: "s3://bucket/t9".to_string(),
        schema: 13,
    };
    assert_eq!(302, create_table(&form, NOW, &mut db).status);
    assert_eq!(4, db.tables.len());
    assert_eq!("t9", db.tables[3].name);
    assert_eq!(13, db.tables[3].schema_id);
    assert_eq!(500, create_table(&form, NOW, &mut db).status);
    let orphan = CreateTable { name: "x".to_string(), location: "l".to_string(), schema: 99 };
    assert_eq!(404, create_table(&orphan, NOW, &mut db).status);
    assert_eq!(4, db.tables.len());
}

#[test]
fn schema_form_creates_a_schema() {
    let mut db = sample();
    let form = CreateSchema { name: "sc9".to_string(), share: 2 };
    assert_eq!(302, create_schema(&form, NOW, &mut db).status);
    assert_eq!(3, db.schemas.len());
    assert_eq!("s2", db.schemas[2].share_name);
    assert_eq!(500, create_schema(&form, NOW, &mut db).status);
    let orphan = CreateSchema { name: "x".to_string(), share: 99 };
    assert_eq!(404, create_schema(&orphan, NOW, &mut db).status);
    assert_eq!(3, db.schemas.len());
}

#[test]
fn a_request_is_checked_then_looked_up() {
    let db = sample();
    let table = locate(Some(client()), "s1", "sc1", "t1", NOW, &db).unwrap();
    assert_eq!(101, table.inner.id);
    assert!(table.delta_table.is_none());
    let missing = locate(Some(client()), "s1", "sc1", "nope", NOW, &db).unwrap_err();
    assert_eq!(404, missing.status);
    let hidden = Tokened { id: 2000, token: "nothing".to_string() };
    assert_eq!(404, locate(Some(hidden), "s1", "sc1", "t1", NOW, &db).unwrap_err().status);
    let anonymous = locate(None, "s1", "sc1", "t1", NOW, &db).unwrap_err();
    assert_eq!(401, anonymous.status);
    assert_eq!("Not authenticated", anonymous.body);
    assert_eq!(401, locate(None, "s1", "sc1", "nope", NOW, &db).unwrap_err().status);
}

#[test]
fn token_ids_are_read_off_the_path() {
    assert_eq!(Ok(1000), token_id_of("00000000-0000-0000-0000-0000000003e8"));
    assert_eq!(Ok(1000), token_id_of("urn:uuid:00000000-0000-0000-0000-0000000003e8"));
    assert_eq!(
        Ok(0xd0ec7722_b30c_4e1c_92cd_b4fe8d3bb954),
        token_id_of("d0ec7722-b30c-4e1c-92cd-b4fe8d3bb954")
    );
    assert_eq!(Err(Error::Validation), token_id_of("00000000-0000-0000-0000-0000000003e"));
    assert_eq!(Err(Error::Validation), token_id_of("zz"));
    assert_eq!(Err(Error::Validation), token_id_of(""));
}

#[test]
fn a_file_is_signed_for_its_object() {
    let file = DataFile {
        path: "date=1/part.parquet".to_string(),
        partition_values: vec![],
        size: 1,
        stats: None,
    };
    assert_eq!("s3://bucket/t1/date=1/part.parquet", location_of("s3://bucket/t1", &file));
    assert_eq!(
        Ok(("bucket".to_string(), "t1/date=1/part.parquet".to_string(), 300)),
        signing_request("s3://bucket/t1", &file)
    );
    assert_eq!(Err(Error::UpstreamSigning), signing_request("/var/data/t1", &file));
    assert_eq!(Err(Error::UpstreamSigning), signing_request("file:///var/data/t1", &file));
}

#[test]
fn a_line_carries_the_url_it_was_given() {
    let file = DataFile {
        path: "part-00000-d0ec7722-b30c-4e1c-92cd-b4fe8d3bb954-c000.snappy.parquet".to_string(),
        partition_values: vec![("date".to_string(), "1".to_string())],
        size: 7,
        stats: None,
    };
    assert_eq!(
        "{\"file\":{\"url\":\"https://signed/?x=1\",\"id\":\"d0ec7722-b30c-4e1c-92cd-b4fe8d3bb954\",\"partitionValues\":{\"date\":\"1\"},\"size\":7,\"stats\":\"\"}}",
        signed_line("https://signed/?x=1", "s3://bucket/t1", &file)
    );
}

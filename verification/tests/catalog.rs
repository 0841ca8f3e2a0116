use riverbank::catalog::Catalog;
use riverbank::creation::TOKEN_LIFETIME_SECS;
use riverbank::error::Error;
use riverbank::models::{Grant, Schema, Share, Table, Token};

const NOW: i64 = 1_620_000_000;

/// Two shares; `s1` holds schemas `sc1` (tables `t1`, `t2`) and `sc2`
/// (table `t3`), `s2` holds `sc3` (table `t4`).
fn sample() -> Catalog {
    let mut db = Catalog::new();
    db.add_share(1, "s1", 10).unwrap();
    db.add_share(2, "s2", 20).unwrap();
    db.add_schema(11, "sc1", 1, 30).unwrap();
    db.add_schema(12, "sc2", 1, 40).unwrap();
    db.add_schema(13, "sc3", 2, 50).unwrap();
    db.add_table(101, "t1", "s3://bucket/t1", 11, 60).unwrap();
    db.add_table(102, "t2", "s3://bucket/t2", 11, 70).unwrap();
    db.add_table(103, "t3", "s3://bucket/t3", 12, 80).unwrap();
    db.add_table(104, "t4", "s3://bucket/t4", 13, 90).unwrap();
    db
}

fn names_of_shares(shares: &Vec<Share>) -> Vec<String> {
    shares.iter().map(|s| s.name.clone()).collect()
}

fn names_of_schemas(schemas: &Vec<Schema>) -> Vec<String> {
    schemas.iter().map(|s| s.name.clone()).collect()
}

fn names_of_tables(tables: &Vec<Table>) -> Vec<String> {
    tables.iter().map(|t| t.name().to_string()).collect()
}

#[test]
fn new_catalog_is_empty() {
    let db = Catalog::new();
    assert!(db.shares.is_empty());
    assert!(db.schemas.is_empty());
    assert!(db.tables.is_empty());
    assert!(db.tokens.is_empty());
    assert!(db.grants.is_empty());
    assert!(Share::list_all(&db).is_empty());
}

#[test]
fn add_share_records_the_row() {
    let mut db = Catalog::new();
    let share = db.add_share(7, "s1", NOW).unwrap();
    assert_eq!(Share { id: 7, name: "s1".to_string(), created_at: NOW }, share);
    assert_eq!(vec![share], db.shares);
}

#[test]
fn share_names_and_ids_are_unique() {
    let mut db = sample();
    let before = db.shares.clone();
    assert_eq!(Err(Error::Conflict), db.add_share(3, "s1", NOW));
    assert_eq!(Err(Error::Conflict), db.add_share(1, "other", NOW));
    assert_eq!(before, db.shares);
}

#[test]
fn schema_needs_its_share() {
    let mut db = sample();
    let before = db.schemas.clone();
    assert_eq!(Err(Error::NotFound), db.add_schema(14, "sc9", 99, NOW));
    assert_eq!(before, db.schemas);
}

#[test]
fn schema_names_are_unique_within_a_share() {
    let mut db = sample();
    assert_eq!(Err(Error::Conflict), db.add_schema(14, "sc1", 1, NOW));
    assert_eq!(Err(Error::Conflict), db.add_schema(11, "fresh", 1, NOW));
    let other = db.add_schema(14, "sc1", 2, NOW).unwrap();
    assert_eq!("s2", other.share_name);
    assert_eq!(2, other.share_id);
}

#[test]
fn table_needs_its_schema() {
    let mut db = sample();
    let before = db.tables.clone();
    assert_eq!(Err(Error::NotFound), db.add_table(105, "t9", "s3://b/t9", 99, NOW));
    assert_eq!(before, db.tables);
}

#[test]
fn table_names_are_unique_within_a_schema() {
    let mut db = sample();
    assert_eq!(Err(Error::Conflict), db.add_table(105, "t1", "s3://b/x", 11, NOW));
    assert_eq!(Err(Error::Conflict), db.add_table(101, "fresh", "s3://b/x", 11, NOW));
    let other = db.add_table(105, "t1", "s3://b/x", 12, NOW).unwrap();
    assert_eq!(12, other.schema_id);
    assert_eq!("s3://b/x", other.location);
}

#[test]
fn rows_stand_in_order_of_creation_time() {
    let mut db = Catalog::new();
    db.add_share(1, "late", 300).unwrap();
    db.add_share(2, "early", 100).unwrap();
    db.add_share(3, "middle", 200).unwrap();
    db.add_share(4, "middle-too", 200).unwrap();
    assert_eq!(
        vec!["early", "middle", "middle-too", "late"],
        names_of_shares(&Share::list_all(&db))
    );
}

#[test]
fn admin_sees_everything() {
    let db = sample();
    assert_eq!(vec!["s1", "s2"], names_of_shares(&Share::list_all(&db)));
    assert_eq!(vec!["sc1", "sc2", "sc3"], names_of_schemas(&Schema::list_all(&db)));
    let tables = Table::list_all(&db);
    assert_eq!(vec!["t1", "t2", "t3", "t4"], names_of_tables(&tables));
    assert_eq!("sc1", tables[0].schema());
    assert_eq!("s1", tables[0].share());
    assert_eq!("sc3", tables[3].schema());
    assert_eq!("s2", tables[3].share());
    assert!(tables.iter().all(|t| t.delta_table.is_none()));
}

#[test]
fn lookups_by_id() {
    let db = sample();
    assert_eq!("s2", Share::by_id(2, &db).unwrap().name);
    assert_eq!(Err(Error::NotFound), Share::by_id(9, &db));
    assert_eq!("sc2", Schema::by_id(12, &db).unwrap().name);
    assert_eq!(Err(Error::NotFound), Schema::by_id(9, &db));
}

#[test]
fn schema_is_found_by_names() {
    let db = sample();
    assert_eq!(13, Schema::find("s2", "sc3", &db).unwrap().id);
    assert_eq!(Err(Error::NotFound), Schema::find("s1", "sc3", &db));
    assert_eq!(Err(Error::NotFound), Schema::find("nope", "sc1", &db));
}

#[test]
fn token_lives_for_thirty_days() {
    let mut db = sample();
    let token = db.add_token(1000, "secret", "reader", &[101], NOW).unwrap();
    assert_eq!(2_592_000, TOKEN_LIFETIME_SECS);
    assert_eq!(NOW + 30 * 24 * 60 * 60, token.expires_at);
    assert_eq!(NOW, token.created_at);
    assert_eq!("reader", token.name);
    assert_eq!("secret", token.token);
    assert_eq!(vec![Grant { token_id: 1000, table_id: 101 }], db.grants);
}

#[test]
fn grant_shows_table_schema_and_share() {
    let mut db = sample();
    db.add_token(1000, "secret", "reader", &[103], NOW).unwrap();
    assert_eq!(vec!["s1"], names_of_shares(&Share::list_by_token(1000, NOW, &db)));
    assert_eq!(vec!["sc2"], names_of_schemas(&Schema::list_by_token("s1", 1000, NOW, &db)));
    assert!(Schema::list_by_token("s2", 1000, NOW, &db).is_empty());
    let tables = Table::list_by_token("s1", "sc2", 1000, NOW, &db).unwrap();
    assert_eq!(vec!["t3"], names_of_tables(&tables));
    assert!(Table::list_by_token("s1", "sc1", 1000, NOW, &db).unwrap().is_empty());
}

#[test]
fn share_is_listed_once_for_many_tables() {
    let mut db = sample();
    db.add_token(1000, "secret", "reader", &[101, 102, 103], NOW).unwrap();
    assert_eq!(vec!["s1"], names_of_shares(&Share::list_by_token(1000, NOW, &db)));
    assert_eq!(
        vec!["sc1", "sc2"],
        names_of_schemas(&Schema::list_by_token("s1", 1000, NOW, &db))
    );
    let tables = Table::list_by_token("s1", "sc1", 1000, NOW, &db).unwrap();
    assert_eq!(vec!["t1", "t2"], names_of_tables(&tables));
}

#[test]
fn listing_tables_of_an_unknown_schema() {
    let mut db = sample();
    db.add_token(1000, "secret", "reader", &[101], NOW).unwrap();
    assert_eq!(Err(Error::NotFound), Table::list_by_token("s1", "nope", 1000, NOW, &db));
    assert_eq!(Err(Error::NotFound), Table::list_by_token("s2", "sc1", 1000, NOW, &db));
}

#[test]
fn find_needs_a_grant() {
    let mut db = sample();
    db.add_token(1000, "secret", "reader", &[101], NOW).unwrap();
    let found = Table::find("s1", "sc1", "t1", 1000, NOW, &db).unwrap();
    assert_eq!(101, found.inner.id);
    assert_eq!("s3://bucket/t1", found.inner.location);
    assert_eq!("t1", found.name());
    assert_eq!("sc1", found.schema());
    assert_eq!("s1", found.share());
    assert!(found.delta_table.is_none());
    assert_eq!(Err(Error::NotFound), Table::find("s1", "sc1", "t2", 1000, NOW, &db));
    assert_eq!(Err(Error::NotFound), Table::find("s1", "sc1", "nope", 1000, NOW, &db));
    assert_eq!(Err(Error::NotFound), Table::find("s1", "nope", "t1", 1000, NOW, &db));
    assert_eq!(Err(Error::NotFound), Table::find("s1", "sc1", "t1", 2000, NOW, &db));
}

#[test]
fn expired_token_sees_nothing() {
    let mut db = sample();
    let token = db.add_token(1000, "secret", "reader", &[101, 104], NOW).unwrap();
    let last = token.expires_at - 1;
    assert_eq!(2, Share::list_by_token(1000, last, &db).len());
    assert!(Table::find("s1", "sc1", "t1", 1000, last, &db).is_ok());
    let at = token.expires_at;
    assert!(Share::list_by_token(1000, at, &db).is_empty());
    assert!(Schema::list_by_token("s1", 1000, at, &db).is_empty());
    assert!(Table::list_by_token("s1", "sc1", 1000, at, &db).unwrap().is_empty());
    assert_eq!(Err(Error::NotFound), Table::find("s1", "sc1", "t1", 1000, at, &db));
    assert!(db.is_live(1000, last));
    assert!(!db.is_live(1000, at));
}

#[test]
fn tokens_with_other_tables_stay_apart() {
    let mut db = sample();
    db.add_token(1000, "secret-a", "a", &[101], NOW).unwrap();
    db.add_token(2000, "secret-b", "b", &[102, 104], NOW).unwrap();
    let a = Table::list_by_token("s1", "sc1", 1000, NOW, &db).unwrap();
    let b = Table::list_by_token("s1", "sc1", 2000, NOW, &db).unwrap();
    assert_eq!(vec!["t1"], names_of_tables(&a));
    assert_eq!(vec!["t2"], names_of_tables(&b));
    assert_eq!(Err(Error::NotFound), Table::find("s1", "sc1", "t2", 1000, NOW, &db));
    assert_eq!(Err(Error::NotFound), Table::find("s1", "sc1", "t1", 2000, NOW, &db));
    assert_eq!(vec!["s1"], names_of_shares(&Share::list_by_token(1000, NOW, &db)));
    assert_eq!(vec!["s1", "s2"], names_of_shares(&Share::list_by_token(2000, NOW, &db)));
    assert!(Schema::list_by_token("s2", 1000, NOW, &db).is_empty());
    assert!(db.sees_table(101, 1000, NOW));
    assert!(!db.sees_table(101, 2000, NOW));
    assert!(db.sees_schema(11, 2000, NOW));
    assert!(!db.sees_schema(13, 1000, NOW));
    assert!(db.sees_share(2, 2000, NOW));
    assert!(!db.sees_share(2, 1000, NOW));
    assert!(db.is_granted(2000, 104));
    assert!(!db.is_granted(1000, 104));
}

#[test]
fn unknown_table_refuses_the_whole_token() {
    let mut db = sample();
    db.add_token(1000, "secret", "reader", &[101], NOW).unwrap();
    let tokens = db.tokens.clone();
    let grants = db.grants.clone();
    assert_eq!(Err(Error::NotFound), db.add_token(2000, "other", "bad", &[102, 999, 103], NOW));
    assert_eq!(tokens, db.tokens);
    assert_eq!(grants, db.grants);
    assert_eq!(Err(Error::NotFound), Token::generate("bad", &[102, 999], NOW, &mut db));
    assert_eq!(tokens, db.tokens);
    assert_eq!(grants, db.grants);
}

#[test]
fn token_ids_and_secrets_are_unique() {
    let mut db = sample();
    db.add_token(1000, "secret", "reader", &[101], NOW).unwrap();
    let grants = db.grants.clone();
    assert_eq!(Err(Error::Conflict), db.add_token(1000, "other", "x", &[102], NOW));
    assert_eq!(Err(Error::Conflict), db.add_token(2000, "secret", "x", &[102], NOW));
    assert_eq!(Err(Error::Conflict), db.add_token(2000, "secret", "x", &[999], NOW));
    assert_eq!(1, db.tokens.len());
    assert_eq!(grants, db.grants);
}

#[test]
fn generate_draws_a_hyphenated_secret() {
    let mut db = sample();
    let token = Token::generate("reader", &[101, 103], NOW, &mut db).unwrap();
    assert_eq!(36, token.token.len());
    for (i, c) in token.token.chars().enumerate() {
        if i == 8 || i == 13 || i == 18 || i == 23 {
            assert_eq!('-', c);
        } else {
            assert!(c.is_ascii_digit() || ('a'..='f').contains(&c));
        }
    }
    assert_eq!("reader", token.name);
    assert_eq!(NOW + TOKEN_LIFETIME_SECS, token.expires_at);
    assert_eq!(
        vec![
            Grant { token_id: token.id, table_id: 101 },
            Grant { token_id: token.id, table_id: 103 }
        ],
        db.grants
    );
    assert_eq!(vec![token.clone()], db.tokens);
    let again = Token::generate("reader", &[], NOW, &mut db).unwrap();
    assert!(again.token != token.token);
    assert!(again.id != token.id);
}

#[test]
fn token_without_tables_sees_nothing() {
    let mut db = sample();
    let token = Token::generate("empty", &[], NOW, &mut db).unwrap();
    assert!(db.grants.is_empty());
    assert!(Share::list_by_token(token.id, NOW, &db).is_empty());
}

#[test]
fn only_live_tokens_are_listed() {
    let mut db = sample();
    db.add_token(1000, "old", "old", &[101], NOW - TOKEN_LIFETIME_SECS).unwrap();
    db.add_token(2000, "new", "new", &[101], NOW - 5).unwrap();
    let live: Vec<String> = Token::list_all(NOW, &db).iter().map(|t| t.name.clone()).collect();
    assert_eq!(vec!["new"], live);
    assert_eq!("old", Token::by_id(1000, &db).unwrap().name);
    assert_eq!(Err(Error::NotFound), Token::by_id(3000, &db));
}

#[test]
fn create_draws_ids() {
    let mut db = Catalog::new();
    let share = Share::create("s1", 1, &mut db).unwrap();
    let schema = Schema::create("sc1", share.id, 2, &mut db).unwrap();
    let table = Table::create("t1", "s3://bucket/t1", schema.id, 3, &mut db).unwrap();
    assert_eq!("s1", schema.share_name);
    assert_eq!(share.id, schema.share_id);
    assert_eq!(schema, table.schema);
    assert_eq!("t1", table.name());
    assert_eq!(3, table.inner.created_at);
    assert!(table.delta_table.is_none());
    assert_eq!(vec![table.inner.clone()], db.tables);
    assert_eq!(Err(Error::Conflict), Share::create("s1", 4, &mut db));
    assert_eq!(Err(Error::Conflict), Schema::create("sc1", share.id, 4, &mut db));
    assert_eq!(Err(Error::NotFound), Schema::create("sc2", share.id.wrapping_add(1), 4, &mut db));
    assert_eq!(
        Err(Error::Conflict),
        Table::create("t1", "s3://bucket/x", schema.id, 4, &mut db).map(|t| t.inner)
    );
    assert_eq!(
        Err(Error::NotFound),
        Table::create("t2", "s3://bucket/x", schema.id.wrapping_add(1), 4, &mut db).map(|t| t.inner)
    );
    assert_eq!(1, db.shares.len());
    assert_eq!(1, db.schemas.len());
    assert_eq!(1, db.tables.len());
}

#[test]
fn every_failure_has_a_status() {
    assert_eq!(401, Error::Unauthorized.status());
    assert_eq!(404, Error::NotFound.status());
    assert_eq!(500, Error::Conflict.status());
    assert_eq!(500, Error::UpstreamSnapshot.status());
    assert_eq!(500, Error::UpstreamSigning.status());
    assert_eq!(500, Error::Validation.status());
    assert_eq!(500, Error::NotATable.status());
}

#[test]
fn reach_of_a_token() {
    let mut db = sample();
    db.add_token(1000, "secret", "reader", &[104, 101], NOW).unwrap();
    assert_eq!(vec![101, 104], db.visible_tables(1000, NOW));
    assert!(db.visible_tables(1000, NOW + TOKEN_LIFETIME_SECS).is_empty());
    assert!(db.visible_tables(2000, NOW).is_empty());
}

#[test]
fn rows_are_found_by_id_and_by_name() {
    let db = sample();
    assert!(riverbank::catalog::knows(&db.shares, 1));
    assert!(!riverbank::catalog::knows(&db.shares, 11));
    assert!(riverbank::catalog::knows(&db.tables, 104));
    assert!(riverbank::catalog::knows_as(&db.shares, None, "s2"));
    assert!(!riverbank::catalog::knows_as(&db.shares, Some(1), "s2"));
    assert!(riverbank::catalog::knows_as(&db.schemas, Some(1), "sc2"));
    assert!(!riverbank::catalog::knows_as(&db.schemas, Some(2), "sc2"));
    assert!(!riverbank::catalog::knows_as(&db.schemas, None, "sc2"));
    assert!(riverbank::catalog::knows_as(&db.tables, Some(13), "t4"));
    assert!(!riverbank::catalog::knows_as(&db.tables, Some(13), "t1"));
}

#[test]
fn tokens_are_found_by_secret() {
    let mut db = sample();
    db.add_token(1000, "secret", "reader", &[101], NOW).unwrap();
    assert!(riverbank::catalog::knows(&db.tokens, 1000));
    assert!(riverbank::catalog::knows_as(&db.tokens, None, "secret"));
    assert!(!riverbank::catalog::knows_as(&db.tokens, None, "reader"));
}

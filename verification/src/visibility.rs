//! What the rules of visibility add up to: a grant carries upwards to the
//! schema and the share of its table, nothing is visible without a grant,
//! and tokens with no table in common do not see each other's tables.

use vstd::prelude::*;
use crate::catalog::Catalog;
use crate::models::{PrimitiveTable, Schema, Share};
use crate::catalog::{by_time, Dated};
use crate::queries::{
    listed_schemas, listed_shares, listed_tables, live_tokens, schema_seen, share_seen, table_seen,
    table_sought, token_unexpired,
};

verus! {

/// Whether two tokens have no granted table in common.
pub open spec fn disjoint_grants(db: Catalog, a: u128, b: u128) -> bool {
    forall|i: int, j: int|
        0 <= i < db.grants.len() && 0 <= j < db.grants.len() && (#[trigger] db.grants[i]).token_id
            == a && (#[trigger] db.grants[j]).token_id == b ==> db.grants[i].table_id
            != db.grants[j].table_id
}

/// Visibility carries upwards. A table that is granted to a live token is
/// in the token's listing of its schema, that schema is in the token's
/// listing of its share, and that share is in the token's listing of
/// shares.
pub proof fn grant_shows_owners(db: Catalog, token_id: u128, now: i64, t: int)
    requires
        db.wf(),
        0 <= t < db.tables.len(),
        db.token_live(token_id, now),
        db.granted(token_id, db.tables[t].id),
    ensures
        exists|schema: Schema, share: Share|
            {
                &&& schema.id == db.tables[t].schema_id
                &&& share.id == schema.share_id
                &&& share.name@ == schema.share_name@
                &&& listed_tables(db, schema.id, token_id, now).contains(db.tables[t])
                &&& #[trigger] listed_schemas(db, share.name@, token_id, now).contains(schema)
                &&& listed_shares(db, token_id, now).contains(share)
            },
{
    assert(db.has_schema(db.tables[t].schema_id));
    let k = choose|k: int|
        0 <= k < db.schemas.len() && (#[trigger] db.schemas[k]).id == db.tables[t].schema_id;
    let schema = db.schemas[k];
    assert(db.owns(schema));
    let m = choose|m: int|
        0 <= m < db.shares.len() && (#[trigger] db.shares[m]).id == schema.share_id
            && db.shares[m].name@ == schema.share_name@;
    let share = db.shares[m];
    assert(db.table_visible(db.tables[t].id, token_id, now));
    assert(db.schema_visible(schema.id, token_id, now));
    assert(db.share_visible(share.id, token_id, now));
    db.tables@.lemma_filter_contains(table_seen(db, schema.id, token_id, now), t);
    db.schemas@.lemma_filter_contains(schema_seen(db, share.name@, token_id, now), k);
    db.shares@.lemma_filter_contains(share_seen(db, token_id, now), m);
    assert(listed_schemas(db, share.name@, token_id, now).contains(schema));
}

/// Nothing shows without a grant. A schema none of whose tables is granted
/// to the token is in none of the token's listings of schemas.
pub proof fn no_grant_hides_schema(
    db: Catalog,
    share: Seq<char>,
    token_id: u128,
    now: i64,
    schema: Schema,
)
    requires
        forall|i: int|
            0 <= i < db.tables.len() && (#[trigger] db.tables[i]).schema_id == schema.id
                ==> !db.granted(token_id, db.tables[i].id),
    ensures
        !listed_schemas(db, share, token_id, now).contains(schema),
{
    let listing = listed_schemas(db, share, token_id, now);
    if listing.contains(schema) {
        let i = choose|i: int| 0 <= i < listing.len() && listing[i] == schema;
        db.schemas@.lemma_filter_pred(schema_seen(db, share, token_id, now), i);
        assert(db.schema_visible(schema.id, token_id, now));
    }
}

/// A share none of whose tables is granted to the token is not in the
/// token's listing of shares, and a table that is not granted to the token
/// is in none of its listings of tables.
pub proof fn no_grant_hides_share_and_table(
    db: Catalog,
    token_id: u128,
    now: i64,
    share: Share,
    schema_id: u128,
    table: PrimitiveTable,
)
    ensures
        (forall|k: int, t: int|
            0 <= k < db.schemas.len() && 0 <= t < db.tables.len() && (
            #[trigger] db.schemas[k]).share_id == share.id && (
            #[trigger] db.tables[t]).schema_id == db.schemas[k].id ==> !db.granted(
                token_id,
                db.tables[t].id,
            )) ==> !listed_shares(db, token_id, now).contains(share),
        !db.granted(token_id, table.id) ==> !listed_tables(db, schema_id, token_id, now).contains(
            table,
        ),
{
    let shares = listed_shares(db, token_id, now);
    if shares.contains(share) {
        let i = choose|i: int| 0 <= i < shares.len() && shares[i] == share;
        db.shares@.lemma_filter_pred(share_seen(db, token_id, now), i);
        let k = choose|k: int|
            0 <= k < db.schemas.len() && (#[trigger] db.schemas[k]).share_id == share.id
                && db.schema_visible(db.schemas[k].id, token_id, now);
        let t = choose|t: int|
            0 <= t < db.tables.len() && (#[trigger] db.tables[t]).schema_id == db.schemas[k].id
                && db.table_visible(db.tables[t].id, token_id, now);
        assert(db.granted(token_id, db.tables[t].id));
    }
    let tables = listed_tables(db, schema_id, token_id, now);
    if tables.contains(table) {
        let i = choose|i: int| 0 <= i < tables.len() && tables[i] == table;
        db.tables@.lemma_filter_pred(table_seen(db, schema_id, token_id, now), i);
    }
}

/// An expired or unknown token sees nothing: all its listings are empty.
pub proof fn dead_token_sees_nothing(
    db: Catalog,
    share: Seq<char>,
    schema_id: u128,
    token_id: u128,
    now: i64,
)
    requires
        !db.token_live(token_id, now),
    ensures
        listed_shares(db, token_id, now).len() == 0,
        listed_schemas(db, share, token_id, now).len() == 0,
        listed_tables(db, schema_id, token_id, now).len() == 0,
{
    let shares = listed_shares(db, token_id, now);
    if shares.len() > 0 {
        db.shares@.lemma_filter_pred(share_seen(db, token_id, now), 0);
    }
    let schemas = listed_schemas(db, share, token_id, now);
    if schemas.len() > 0 {
        db.schemas@.lemma_filter_pred(schema_seen(db, share, token_id, now), 0);
    }
    let tables = listed_tables(db, schema_id, token_id, now);
    if tables.len() > 0 {
        db.tables@.lemma_filter_pred(table_seen(db, schema_id, token_id, now), 0);
    }
}

/// Tokens with no table in common do not see each other's tables: a table
/// in a listing of one is in no listing of the other, and the other cannot
/// look it up by name.
pub proof fn disjoint_tokens_share_no_table(
    db: Catalog,
    a: u128,
    b: u128,
    now: i64,
    schema_id: u128,
    table: PrimitiveTable,
)
    requires
        disjoint_grants(db, a, b),
        listed_tables(db, schema_id, a, now).contains(table),
    ensures
        forall|other: u128| !listed_tables(db, other, b, now).contains(table),
        forall|other: u128| !table_sought(db, other, table.name@, b, now)(table),
{
    let mine = listed_tables(db, schema_id, a, now);
    let i = choose|i: int| 0 <= i < mine.len() && mine[i] == table;
    db.tables@.lemma_filter_pred(table_seen(db, schema_id, a, now), i);
    assert(db.granted(a, table.id));
    assert(!db.granted(b, table.id));
    assert forall|other: u128| !listed_tables(db, other, b, now).contains(table) by {
        let theirs = listed_tables(db, other, b, now);
        if theirs.contains(table) {
            let j = choose|j: int| 0 <= j < theirs.len() && theirs[j] == table;
            db.tables@.lemma_filter_pred(table_seen(db, other, b, now), j);
        }
    }
}

/// A schema or a share is in a token's listing only on account of a table
/// granted to that token. Where two tokens have no table in common, every
/// schema listed for one holds a table that the one sees and the other does
/// not, and every share listed for one holds such a schema.
pub proof fn listing_rests_on_own_grant(
    db: Catalog,
    a: u128,
    b: u128,
    now: i64,
    share: Seq<char>,
    schema: Schema,
    listed_share: Share,
)
    requires
        disjoint_grants(db, a, b),
    ensures
        listed_schemas(db, share, a, now).contains(schema) ==> exists|t: int|
            0 <= t < db.tables.len() && (#[trigger] db.tables[t]).schema_id == schema.id
                && db.table_visible(db.tables[t].id, a, now) && !db.table_visible(
                db.tables[t].id,
                b,
                now,
            ),
        listed_shares(db, a, now).contains(listed_share) ==> exists|k: int, t: int|
            0 <= k < db.schemas.len() && 0 <= t < db.tables.len() && (
            #[trigger] db.schemas[k]).share_id == listed_share.id && (
            #[trigger] db.tables[t]).schema_id == db.schemas[k].id && db.table_visible(
                db.tables[t].id,
                a,
                now,
            ) && !db.table_visible(db.tables[t].id, b, now),
{
    let schemas = listed_schemas(db, share, a, now);
    if schemas.contains(schema) {
        let i = choose|i: int| 0 <= i < schemas.len() && schemas[i] == schema;
        db.schemas@.lemma_filter_pred(schema_seen(db, share, a, now), i);
        let t = choose|t: int|
            0 <= t < db.tables.len() && (#[trigger] db.tables[t]).schema_id == schema.id
                && db.table_visible(db.tables[t].id, a, now);
        assert(!db.granted(b, db.tables[t].id));
    }
    let shares = listed_shares(db, a, now);
    if shares.contains(listed_share) {
        let i = choose|i: int| 0 <= i < shares.len() && shares[i] == listed_share;
        db.shares@.lemma_filter_pred(share_seen(db, a, now), i);
        let k = choose|k: int|
            0 <= k < db.schemas.len() && (#[trigger] db.schemas[k]).share_id == listed_share.id
                && db.schema_visible(db.schemas[k].id, a, now);
        let t = choose|t: int|
            0 <= t < db.tables.len() && (#[trigger] db.tables[t]).schema_id == db.schemas[k].id
                && db.table_visible(db.tables[t].id, a, now);
        assert(!db.granted(b, db.tables[t].id));
    }
}

/// Filtering keeps rows in order of creation time.
pub proof fn lemma_filter_keeps_order<T: Dated>(rows: Seq<T>, keep: spec_fn(T) -> bool)
    requires
        by_time(rows),
    ensures
        by_time(rows.filter(keep)),
    decreases rows.len(),
{
    reveal(Seq::filter);
    if rows.len() > 0 {
        let front = rows.drop_last();
        lemma_filter_keeps_order(front, keep);
        let kept = front.filter(keep);
        assert forall|i: int| 0 <= i < kept.len() implies kept[i].created()
            <= rows.last().created() by {
            front.lemma_filter_contains_rev(keep, kept[i]);
            let k = choose|k: int| 0 <= k < front.len() && front[k] == kept[i];
            assert(rows[k] == kept[i]);
        }
    }
}

/// Every listing stands in order of creation time, the oldest row first:
/// the shares, schemas and tables that a token is shown, and the tokens
/// that have not expired.
pub proof fn listings_stand_in_order(
    db: Catalog,
    share: Seq<char>,
    schema_id: u128,
    token_id: u128,
    now: i64,
)
    requires
        db.wf(),
    ensures
        by_time(listed_shares(db, token_id, now)),
        by_time(listed_schemas(db, share, token_id, now)),
        by_time(listed_tables(db, schema_id, token_id, now)),
        by_time(live_tokens(db, now)),
{
    lemma_filter_keeps_order(db.shares@, share_seen(db, token_id, now));
    lemma_filter_keeps_order(db.schemas@, schema_seen(db, share, token_id, now));
    lemma_filter_keeps_order(db.tables@, table_seen(db, schema_id, token_id, now));
    lemma_filter_keeps_order(db.tokens@, token_unexpired(now));
}

} // verus!

//! Listings and lookups over the catalog, for the administrator (who sees
//! every row) and for a token (which sees what its grants reach).

use vstd::prelude::*;
use crate::catalog::{lemma_filter_step, Catalog};
use crate::error::Error;
use crate::models::{PrimitiveTable, Schema, Share, Table, Token};
use crate::text::same_text;

verus! {

/// Whether `found` is the first of the rows that `want` accepts.
pub open spec fn is_first<T>(rows: Seq<T>, want: spec_fn(T) -> bool, found: T) -> bool {
    exists|i: int|
        0 <= i < rows.len() && #[trigger] rows[i] == found && want(found) && forall|j: int|
            0 <= j < i ==> !want(#[trigger] rows[j])
}

/// Whether `want` accepts none of the rows.
pub open spec fn none_match<T>(rows: Seq<T>, want: spec_fn(T) -> bool) -> bool {
    forall|j: int| 0 <= j < rows.len() ==> !want(#[trigger] rows[j])
}

/// The outcome of looking for the first row that `want` accepts: that row,
/// or `NotFound` where there is none.
pub open spec fn lookup<T>(rows: Seq<T>, want: spec_fn(T) -> bool, outcome: Result<T, Error>) -> bool {
    match outcome {
        Ok(found) => is_first(rows, want, found),
        Err(e) => e == Error::NotFound && none_match(rows, want),
    }
}

/// Shares that a token sees.
pub open spec fn share_seen(db: Catalog, token_id: u128, now: i64) -> spec_fn(Share) -> bool {
    |s: Share| db.share_visible(s.id, token_id, now)
}

/// Schemas of the share named `share` that a token sees.
pub open spec fn schema_seen(db: Catalog, share: Seq<char>, token_id: u128, now: i64) -> spec_fn(
    Schema,
) -> bool {
    |s: Schema| s.share_name@ == share && db.schema_visible(s.id, token_id, now)
}

/// Tables of the schema `schema_id` that a token sees.
pub open spec fn table_seen(db: Catalog, schema_id: u128, token_id: u128, now: i64) -> spec_fn(
    PrimitiveTable,
) -> bool {
    |t: PrimitiveTable| t.schema_id == schema_id && db.table_visible(t.id, token_id, now)
}

/// The table named `name` of the schema `schema_id`, if a token sees it.
pub open spec fn table_sought(
    db: Catalog,
    schema_id: u128,
    name: Seq<char>,
    token_id: u128,
    now: i64,
) -> spec_fn(PrimitiveTable) -> bool {
    |t: PrimitiveTable|
        t.schema_id == schema_id && t.name@ == name && db.table_visible(t.id, token_id, now)
}

/// Tokens that have not expired at `now`.
pub open spec fn token_unexpired(now: i64) -> spec_fn(Token) -> bool {
    |t: Token| t.expires_at > now
}

/// What a token is shown when it lists the shares.
pub open spec fn listed_shares(db: Catalog, token_id: u128, now: i64) -> Seq<Share> {
    db.shares@.filter(share_seen(db, token_id, now))
}

/// What a token is shown when it lists the schemas of the share `share`.
pub open spec fn listed_schemas(db: Catalog, share: Seq<char>, token_id: u128, now: i64) -> Seq<
    Schema,
> {
    db.schemas@.filter(schema_seen(db, share, token_id, now))
}

/// What a token is shown when it lists the tables of the schema
/// `schema_id`.
pub open spec fn listed_tables(db: Catalog, schema_id: u128, token_id: u128, now: i64) -> Seq<
    PrimitiveTable,
> {
    db.tables@.filter(table_seen(db, schema_id, token_id, now))
}

/// The tokens that are shown in the overview at `now`: those that have not
/// expired.
pub open spec fn live_tokens(db: Catalog, now: i64) -> Seq<Token> {
    db.tokens@.filter(token_unexpired(now))
}

/// Rows with the given id.
pub open spec fn share_with_id(id: u128) -> spec_fn(Share) -> bool {
    |s: Share| s.id == id
}

/// Rows with the given id.
pub open spec fn schema_with_id(id: u128) -> spec_fn(Schema) -> bool {
    |s: Schema| s.id == id
}

/// Rows with the given id.
pub open spec fn token_with_id(id: u128) -> spec_fn(Token) -> bool {
    |t: Token| t.id == id
}

/// Schemas of the given name in the share of the given name.
pub open spec fn schema_named(share: Seq<char>, schema: Seq<char>) -> spec_fn(Schema) -> bool {
    |s: Schema| s.name@ == schema && s.share_name@ == share
}

/// The outcome of looking a table up by the names of its share, its schema
/// and itself, as a token sees the catalog at `now`: the first table of that
/// name in the first schema of that name, with that schema and not loaded,
/// if the token sees it; `NotFound` where the schema is absent, or it holds
/// no table of that name that the token sees.
pub open spec fn table_lookup(
    db: Catalog,
    share: Seq<char>,
    schema: Seq<char>,
    table: Seq<char>,
    token_id: u128,
    now: i64,
    found: Result<Table, Error>,
) -> bool {
    match found {
        Ok(found) => {
            &&& is_first(db.schemas@, schema_named(share, schema), found.schema)
            &&& is_first(
                db.tables@,
                table_sought(db, found.schema.id, table, token_id, now),
                found.inner,
            )
            &&& found.delta_table is None
        },
        Err(e) => e == Error::NotFound && (none_match(db.schemas@, schema_named(share, schema))
            || exists|owner: Schema|
            {
                &&& #[trigger] is_first(db.schemas@, schema_named(share, schema), owner)
                &&& none_match(db.tables@, table_sought(db, owner.id, table, token_id, now))
            }),
    }
}

/// The handles of catalog rows of one schema, none of them loaded.
pub open spec fn handles(rows: Seq<PrimitiveTable>, schema: Schema) -> Seq<Table> {
    rows.map_values(|t: PrimitiveTable| Table { inner: t, schema, delta_table: None })
}

impl Share {
    /// Every share, in order of creation.
    pub fn list_all(db: &Catalog) -> (shares: Vec<Share>)
        ensures
            shares@ == db.shares@,
    {
        let mut out: Vec<Share> = Vec::new();
        let mut i: usize = 0;
        while i < db.shares.len()
            invariant
                i <= db.shares.len(),
                out@ =~= db.shares@.take(i as int),
            decreases db.shares.len() - i,
        {
            out.push(db.shares[i].clone());
            i = i + 1;
        }
        out
    }

    /// The shares that the token sees at `now`, each once, in order of
    /// creation: those with a schema that holds a table granted to the
    /// token, provided the token has not expired.
    pub fn list_by_token(token_id: u128, now: i64, db: &Catalog) -> (shares: Vec<Share>)
        ensures
            shares@ == listed_shares(*db, token_id, now),
    {
        let mut out: Vec<Share> = Vec::new();
        let mut i: usize = 0;
        while i < db.shares.len()
            invariant
                i <= db.shares.len(),
                out@ == db.shares@.take(i as int).filter(share_seen(*db, token_id, now)),
            decreases db.shares.len() - i,
        {
            proof {
                lemma_filter_step(db.shares@, share_seen(*db, token_id, now), i as int);
            }
            if db.sees_share(db.shares[i].id, token_id, now) {
                out.push(db.shares[i].clone());
            }
            i = i + 1;
        }
        assert(db.shares@.take(db.shares.len() as int) =~= db.shares@);
        out
    }

    /// The share with the given id.
    pub fn by_id(id: u128, db: &Catalog) -> (share: Result<Share, Error>)
        ensures
            lookup(db.shares@, share_with_id(id), share),
    {
        let mut i: usize = 0;
        while i < db.shares.len()
            invariant
                i <= db.shares.len(),
                forall|j: int| 0 <= j < i ==> !share_with_id(id)(#[trigger] db.shares@[j]),
            decreases db.shares.len() - i,
        {
            if db.shares[i].id == id {
                return Ok(db.shares[i].clone());
            }
            i = i + 1;
        }
        Err(Error::NotFound)
    }
}

impl Schema {
    /// The schemas of the share named `share` that the token sees at `now`,
    /// in order of creation: those that hold a table granted to the token,
    /// provided the token has not expired.
    pub fn list_by_token(share: &str, token_id: u128, now: i64, db: &Catalog) -> (schemas: Vec<
        Schema,
    >)
        ensures
            schemas@ == listed_schemas(*db, share@, token_id, now),
    {
        let mut out: Vec<Schema> = Vec::new();
        let mut i: usize = 0;
        while i < db.schemas.len()
            invariant
                i <= db.schemas.len(),
                out@ == db.schemas@.take(i as int).filter(
                    schema_seen(*db, share@, token_id, now),
                ),
            decreases db.schemas.len() - i,
        {
            proof {
                lemma_filter_step(db.schemas@, schema_seen(*db, share@, token_id, now), i as int);
            }
            if same_text(&db.schemas[i].share_name, share) && db.sees_schema(
                db.schemas[i].id,
                token_id,
                now,
            ) {
                out.push(db.schemas[i].clone());
            }
            i = i + 1;
        }
        assert(db.schemas@.take(db.schemas.len() as int) =~= db.schemas@);
        out
    }

    /// Every schema, in order of creation.
    pub fn list_all(db: &Catalog) -> (schemas: Vec<Schema>)
        ensures
            schemas@ == db.schemas@,
    {
        let mut out: Vec<Schema> = Vec::new();
        let mut i: usize = 0;
        while i < db.schemas.len()
            invariant
                i <= db.schemas.len(),
                out@ =~= db.schemas@.take(i as int),
            decreases db.schemas.len() - i,
        {
            out.push(db.schemas[i].clone());
            i = i + 1;
        }
        out
    }

    /// The schema named `schema` in the share named `share`.
    pub fn find(share: &str, schema: &str, db: &Catalog) -> (found: Result<Schema, Error>)
        ensures
            lookup(db.schemas@, schema_named(share@, schema@), found),
    {
        let mut i: usize = 0;
        while i < db.schemas.len()
            invariant
                i <= db.schemas.len(),
                forall|j: int|
                    0 <= j < i ==> !schema_named(share@, schema@)(#[trigger] db.schemas@[j]),
            decreases db.schemas.len() - i,
        {
            if same_text(&db.schemas[i].name, schema) && same_text(&db.schemas[i].share_name, share) {
                return Ok(db.schemas[i].clone());
            }
            i = i + 1;
        }
        Err(Error::NotFound)
    }

    /// The schema with the given id.
    pub fn by_id(id: u128, db: &Catalog) -> (schema: Result<Schema, Error>)
        ensures
            lookup(db.schemas@, schema_with_id(id), schema),
    {
        let mut i: usize = 0;
        while i < db.schemas.len()
            invariant
                i <= db.schemas.len(),
                forall|j: int| 0 <= j < i ==> !schema_with_id(id)(#[trigger] db.schemas@[j]),
            decreases db.schemas.len() - i,
        {
            if db.schemas[i].id == id {
                return Ok(db.schemas[i].clone());
            }
            i = i + 1;
        }
        Err(Error::NotFound)
    }
}

impl Table {
    /// Every table with its schema, in order of creation, none of them
    /// loaded.
    pub fn list_all(db: &Catalog) -> (tables: Vec<Table>)
        requires
            db.wf(),
        ensures
            tables.len() == db.tables.len(),
            forall|i: int|
                0 <= i < tables.len() ==> {
                    &&& (#[trigger] tables[i]).inner == db.tables[i]
                    &&& tables[i].delta_table is None
                    &&& is_first(db.schemas@, schema_with_id(db.tables[i].schema_id), tables[i].schema)
                },
    {
        let mut out: Vec<Table> = Vec::new();
        let mut i: usize = 0;
        while i < db.tables.len()
            invariant
                db.wf(),
                i <= db.tables.len(),
                out.len() == i,
                forall|k: int|
                    0 <= k < i ==> {
                        &&& (#[trigger] out[k]).inner == db.tables[k]
                        &&& out[k].delta_table is None
                        &&& is_first(
                            db.schemas@,
                            schema_with_id(db.tables[k].schema_id),
                            out[k].schema,
                        )
                    },
            decreases db.tables.len() - i,
        {
            let inner = db.tables[i].clone();
            match Schema::by_id(inner.schema_id, db) {
                Ok(schema) => {
                    out.push(Table { inner, schema, delta_table: None });
                },
                Err(_) => {
                    proof {
                        assert(db.has_schema(db.tables[i as int].schema_id));
                        let k = choose|k: int|
                            0 <= k < db.schemas.len() && (#[trigger] db.schemas[k]).id
                                == db.tables[i as int].schema_id;
                        assert(schema_with_id(inner.schema_id)(db.schemas@[k]));
                        assert(false);
                    }
                },
            }
            i = i + 1;
        }
        out
    }

    /// The tables of the schema named `schema` in the share named `share`
    /// that the token sees at `now`, in order of creation, none of them
    /// loaded; `NotFound` where the share has no such schema.
    pub fn list_by_token(share: &str, schema: &str, token_id: u128, now: i64, db: &Catalog) -> (tables:
        Result<Vec<Table>, Error>)
        ensures
            match tables {
                Ok(tables) => exists|owner: Schema|
                    {
                        &&& is_first(db.schemas@, schema_named(share@, schema@), owner)
                        &&& tables@ == handles(
                            listed_tables(*db, owner.id, token_id, now),
                            owner,
                        )
                    },
                Err(e) => e == Error::NotFound && none_match(
                    db.schemas@,
                    schema_named(share@, schema@),
                ),
            },
    {
        let owner = match Schema::find(share, schema, db) {
            Ok(owner) => owner,
            Err(e) => {
                return Err(e);
            },
        };
        let mut out: Vec<Table> = Vec::new();
        let mut i: usize = 0;
        while i < db.tables.len()
            invariant
                i <= db.tables.len(),
                out@ =~= handles(
                    db.tables@.take(i as int).filter(table_seen(*db, owner.id, token_id, now)),
                    owner,
                ),
            decreases db.tables.len() - i,
        {
            proof {
                lemma_filter_step(db.tables@, table_seen(*db, owner.id, token_id, now), i as int);
            }
            if db.tables[i].schema_id == owner.id && db.sees_table(db.tables[i].id, token_id, now) {
                out.push(Table { inner: db.tables[i].clone(), schema: owner.clone(), delta_table: None });
            }
            i = i + 1;
        }
        assert(db.tables@.take(db.tables.len() as int) =~= db.tables@);
        Ok(out)
    }

    /// The table named `table` of the schema named `schema` in the share
    /// named `share`, if the token sees it at `now`; `NotFound` where the
    /// schema or the table is absent, or the table is not visible to the
    /// token.
    pub fn find(share: &str, schema: &str, table: &str, token_id: u128, now: i64, db: &Catalog) -> (found:
        Result<Table, Error>)
        ensures
            table_lookup(*db, share@, schema@, table@, token_id, now, found),
    {
        let owner = match Schema::find(share, schema, db) {
            Ok(owner) => owner,
            Err(e) => {
                return Err(e);
            },
        };
        let mut i: usize = 0;
        while i < db.tables.len()
            invariant
                i <= db.tables.len(),
                is_first(db.schemas@, schema_named(share@, schema@), owner),
                forall|j: int|
                    0 <= j < i ==> !table_sought(*db, owner.id, table@, token_id, now)(
                        #[trigger] db.tables@[j],
                    ),
            decreases db.tables.len() - i,
        {
            if db.tables[i].schema_id == owner.id && same_text(&db.tables[i].name, table)
                && db.sees_table(db.tables[i].id, token_id, now) {
                return Ok(Table { inner: db.tables[i].clone(), schema: owner, delta_table: None });
            }
            i = i + 1;
        }
        Err(Error::NotFound)
    }
}

impl Token {
    /// The tokens that have not expired at `now`, in order of creation.
    pub fn list_all(now: i64, db: &Catalog) -> (tokens: Vec<Token>)
        ensures
            tokens@ == live_tokens(*db, now),
    {
        let mut out: Vec<Token> = Vec::new();
        let mut i: usize = 0;
        while i < db.tokens.len()
            invariant
                i <= db.tokens.len(),
                out@ == db.tokens@.take(i as int).filter(token_unexpired(now)),
            decreases db.tokens.len() - i,
        {
            proof {
                lemma_filter_step(db.tokens@, token_unexpired(now), i as int);
            }
            if db.tokens[i].expires_at > now {
                out.push(db.tokens[i].clone());
            }
            i = i + 1;
        }
        assert(db.tokens@.take(db.tokens.len() as int) =~= db.tokens@);
        out
    }

    /// The token with the given id, expired or not.
    pub fn by_id(id: u128, db: &Catalog) -> (token: Result<Token, Error>)
        ensures
            lookup(db.tokens@, token_with_id(id), token),
    {
        let mut i: usize = 0;
        while i < db.tokens.len()
            invariant
                i <= db.tokens.len(),
                forall|j: int| 0 <= j < i ==> !token_with_id(id)(#[trigger] db.tokens@[j]),
            decreases db.tokens.len() - i,
        {
            if db.tokens[i].id == id {
                return Ok(db.tokens[i].clone());
            }
            i = i + 1;
        }
        Err(Error::NotFound)
    }
}

} // verus!

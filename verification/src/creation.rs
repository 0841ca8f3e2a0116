//! Adding rows to the catalog. Every addition keeps the catalog's rules, and
//! one that is refused leaves the catalog as it was.

use vstd::prelude::*;
use crate::catalog::{by_time, has_key, knows, knows_as, placed, Catalog, Dated, Keyed};
use crate::error::Error;
use crate::ids::{fresh_id, hyphenated, hyphenated_text};
use crate::models::{Grant, PrimitiveTable, Schema, Share, Table, Token};
use crate::queries::{is_first, schema_with_id, share_with_id};

verus! {

/// How long a token stays valid: thirty days, in seconds.
pub const TOKEN_LIFETIME_SECS: i64 = 2_592_000;

/// One grant under `token_id` for each of the tables, in order.
pub open spec fn grants_for(token_id: u128, tables: Seq<u128>) -> Seq<Grant> {
    tables.map_values(|t: u128| Grant { token_id, table_id: t })
}

/// A row of `before` is still there after an insertion at `p`, one place
/// further on if it stood at or behind `p`.
pub proof fn lemma_insert_keeps<T>(before: Seq<T>, p: int, row: T, k: int)
    requires
        0 <= p <= before.len(),
        0 <= k < before.len(),
    ensures
        before.insert(p, row).len() == before.len() + 1,
        before.insert(p, row)[if k < p {
            k
        } else {
            k + 1
        }] == before[k],
{
}

/// A row after an insertion at `p` is the new row or a row of `before`.
pub proof fn lemma_insert_from<T>(before: Seq<T>, p: int, row: T, k: int)
    requires
        0 <= p <= before.len(),
        0 <= k <= before.len(),
    ensures
        before.insert(p, row).len() == before.len() + 1,
        k == p ==> before.insert(p, row)[k] == row,
        k < p ==> before.insert(p, row)[k] == before[k],
        k > p ==> before.insert(p, row)[k] == before[k - 1],
{
}

/// A row that is found by its id is still found when a row has been added.
pub proof fn lemma_row_stays<T: Keyed>(before: Seq<T>, after: Seq<T>, p: int, row: T, id: u128)
    requires
        has_key(before, id),
        0 <= p <= before.len(),
        after == before.insert(p, row),
    ensures
        has_key(after, id),
{
    let k = choose|k: int| 0 <= k < before.len() && (#[trigger] before[k]).key() == id;
    lemma_insert_keeps(before, p, row, k);
    let k2 = if k < p {
        k
    } else {
        k + 1
    };
    assert(after[k2].key() == id);
}

/// Puts a row in at its place in time and says where that was.
pub fn insert_row<T: Dated>(rows: &mut Vec<T>, row: T) -> (p: usize)
    requires
        by_time(old(rows)@),
    ensures
        p <= old(rows).len(),
        final(rows)@ == old(rows)@.insert(p as int, row),
        forall|i: int| 0 <= i < p ==> old(rows)@[i].created() <= row.created(),
        forall|i: int| p <= i < old(rows).len() ==> old(rows)@[i].created() > row.created(),
        placed(old(rows)@, row, final(rows)@),
        by_time(final(rows)@),
{
    let at = row.created_at();
    let mut p: usize = rows.len();
    while p > 0
        invariant
            p <= rows.len(),
            rows@ == old(rows)@,
            by_time(rows@),
            at == row.created(),
            forall|i: int| p <= i < rows.len() ==> rows@[i].created() > at,
            p == 0 || p == rows.len() || rows@[p as int].created() > at,
        ensures
            p <= rows.len(),
            forall|i: int| p <= i < rows.len() ==> rows@[i].created() > at,
            forall|i: int| 0 <= i < p ==> rows@[i].created() <= at,
        decreases p,
    {
        if rows[p - 1].created_at() <= at {
            break ;
        }
        p = p - 1;
    }
    let ghost before = rows@;
    rows.insert(p, row);
    proof {
        assert forall|i: int, j: int| 0 <= i <= j < rows@.len() implies rows@[i].created()
            <= rows@[j].created() by {
            lemma_insert_from(before, p as int, row, i);
            lemma_insert_from(before, p as int, row, j);
        }
    }
    p
}

impl Catalog {
    /// Why a share cannot be added: its id or its name is taken.
    pub open spec fn share_refusal(&self, id: u128, name: Seq<char>) -> Option<Error> {
        if self.has_share(id) || self.has_share_named(name) {
            Some(Error::Conflict)
        } else {
            None
        }
    }

    /// Why a schema cannot be added: the share is absent, or the schema's id
    /// or its name within the share is taken.
    pub open spec fn schema_refusal(&self, id: u128, name: Seq<char>, share_id: u128) -> Option<
        Error,
    > {
        if !self.has_share(share_id) {
            Some(Error::NotFound)
        } else if self.has_schema(id) || self.has_schema_named(share_id, name) {
            Some(Error::Conflict)
        } else {
            None
        }
    }

    /// Whether `self` is `before` with the one share added.
    pub open spec fn gained_share(&self, before: Catalog, share: Share) -> bool {
        &&& placed(before.shares@, share, self.shares@)
        &&& self.schemas == before.schemas
        &&& self.tables == before.tables
        &&& self.tokens == before.tokens
        &&& self.grants == before.grants
    }

    /// Whether `self` is `before` with the one schema added.
    pub open spec fn gained_schema(&self, before: Catalog, schema: Schema) -> bool {
        &&& placed(before.schemas@, schema, self.schemas@)
        &&& self.shares == before.shares
        &&& self.tables == before.tables
        &&& self.tokens == before.tokens
        &&& self.grants == before.grants
    }

    /// Whether `self` is `before` with the one table added.
    pub open spec fn gained_table(&self, before: Catalog, table: PrimitiveTable) -> bool {
        &&& placed(before.tables@, table, self.tables@)
        &&& self.shares == before.shares
        &&& self.schemas == before.schemas
        &&& self.tokens == before.tokens
        &&& self.grants == before.grants
    }

    /// Whether `self` is `before` with the one token added and, behind the
    /// grants that were there, one grant for each of `tables`, in order.
    pub open spec fn gained_token(&self, before: Catalog, token: Token, tables: Seq<u128>) -> bool {
        &&& placed(before.tokens@, token, self.tokens@)
        &&& self.grants@ == before.grants@ + grants_for(token.id, tables)
        &&& self.shares == before.shares
        &&& self.schemas == before.schemas
        &&& self.tables == before.tables
    }

    /// Why a table cannot be added: the schema is absent, or the table's id
    /// or its name within the schema is taken.
    pub open spec fn table_refusal(&self, id: u128, name: Seq<char>, schema_id: u128) -> Option<
        Error,
    > {
        if !self.has_schema(schema_id) {
            Some(Error::NotFound)
        } else if self.has_table(id) || self.has_table_named(schema_id, name) {
            Some(Error::Conflict)
        } else {
            None
        }
    }

    /// Why a token cannot be added: its id or its secret is taken, or one of
    /// the tables it is to reach is absent.
    pub open spec fn token_refusal(&self, id: u128, secret: Seq<char>, tables: Seq<u128>) -> Option<
        Error,
    > {
        if self.has_token(id) || self.has_secret(secret) {
            Some(Error::Conflict)
        } else if exists|i: int| 0 <= i < tables.len() && !self.has_table(#[trigger] tables[i]) {
            Some(Error::NotFound)
        } else {
            None
        }
    }

    /// What adding a share under `id` ends in, `self` being the catalog
    /// afterwards: a refusal that leaves the catalog as it was, or the new
    /// share in its place.
    pub open spec fn share_added(
        &self,
        before: Catalog,
        id: u128,
        name: Seq<char>,
        now: i64,
        added: Result<Share, Error>,
    ) -> bool {
        match before.share_refusal(id, name) {
            Some(e) => added == Err::<Share, Error>(e) && *self == before,
            None => {
                &&& added matches Ok(share)
                &&& share.id == id
                &&& share.name@ == name
                &&& share.created_at == now
                &&& self.gained_share(before, share)
            },
        }
    }

    /// What adding a schema under `id` ends in, `self` being the catalog
    /// afterwards: a refusal that leaves the catalog as it was, or the new
    /// schema in its place.
    pub open spec fn schema_added(
        &self,
        before: Catalog,
        id: u128,
        name: Seq<char>,
        share_id: u128,
        now: i64,
        added: Result<Schema, Error>,
    ) -> bool {
        match before.schema_refusal(id, name, share_id) {
            Some(e) => added == Err::<Schema, Error>(e) && *self == before,
            None => {
                &&& added matches Ok(schema)
                &&& schema.id == id
                &&& schema.name@ == name
                &&& schema.share_id == share_id
                &&& schema.created_at == now
                &&& before.owns(schema)
                &&& self.gained_schema(before, schema)
            },
        }
    }

    /// What adding a table under `id` ends in, `self` being the catalog
    /// afterwards: a refusal that leaves the catalog as it was, or the new
    /// table in its place.
    pub open spec fn table_added(
        &self,
        before: Catalog,
        id: u128,
        name: Seq<char>,
        location: Seq<char>,
        schema_id: u128,
        now: i64,
        added: Result<PrimitiveTable, Error>,
    ) -> bool {
        match before.table_refusal(id, name, schema_id) {
            Some(e) => added == Err::<PrimitiveTable, Error>(e) && *self == before,
            None => {
                &&& added matches Ok(table)
                &&& table.id == id
                &&& table.name@ == name
                &&& table.location@ == location
                &&& table.schema_id == schema_id
                &&& table.created_at == now
                &&& self.gained_table(before, table)
            },
        }
    }

    /// What adding a token under `id` with the given secret ends in, `self`
    /// being the catalog afterwards: a refusal that leaves the catalog as it
    /// was, token and grants alike, or the new token, valid for thirty days
    /// from `now`, with all its grants.
    pub open spec fn token_added(
        &self,
        before: Catalog,
        id: u128,
        secret: Seq<char>,
        name: Seq<char>,
        tables: Seq<u128>,
        now: i64,
        added: Result<Token, Error>,
    ) -> bool {
        match before.token_refusal(id, secret, tables) {
            Some(e) => added == Err::<Token, Error>(e) && *self == before,
            None => {
                &&& added matches Ok(token)
                &&& token.id == id
                &&& token.name@ == name
                &&& token.token@ == secret
                &&& token.created_at == now
                &&& token.expires_at == now + TOKEN_LIFETIME_SECS
                &&& self.gained_token(before, token, tables)
            },
        }
    }

    /// Adds a share under the given id, created at `now`.
    pub fn add_share(&mut self, id: u128, name: &str, now: i64) -> (added: Result<Share, Error>)
        requires
            old(self).wf(),
        ensures
            final(self).wf(),
            final(self).share_added(*old(self), id, name@, now, added),
    {
        if knows(&self.shares, id) || knows_as(&self.shares, None, name) {
            return Err(Error::Conflict);
        }
        let share = Share { id, name: name.to_owned(), created_at: now };
        let p = insert_row(&mut self.shares, share.clone());
        proof {
            let before = old(self).shares@;
            let after = self.shares@;
            assert forall|i: int, j: int| 0 <= i < j < after.len() implies (#[trigger] after[i]).id
                != (#[trigger] after[j]).id && after[i].name@ != after[j].name@ by {
                lemma_insert_from(before, p as int, share, i);
                lemma_insert_from(before, p as int, share, j);
            }
            assert forall|i: int| 0 <= i < self.schemas.len() implies self.owns(
                #[trigger] self.schemas[i],
            ) by {
                assert(old(self).owns(old(self).schemas[i]));
                let k = choose|k: int|
                    0 <= k < before.len() && (#[trigger] before[k]).id == self.schemas[i].share_id
                        && before[k].name@ == self.schemas[i].share_name@;
                lemma_insert_keeps(before, p as int, share, k);
            }
            assert(self.shares_ok());
            assert(self.schemas_ok());
            assert(self.tables_ok());
            assert(self.tokens_ok());
            assert(self.grants_ok());
        }
        Ok(share)
    }

    /// Adds a schema to the share `share_id` under the given id, created at
    /// `now`.
    pub fn add_schema(&mut self, id: u128, name: &str, share_id: u128, now: i64) -> (added: Result<
        Schema,
        Error,
    >)
        requires
            old(self).wf(),
        ensures
            final(self).wf(),
            final(self).schema_added(*old(self), id, name@, share_id, now, added),
    {
        let owner = match Share::by_id(share_id, self) {
            Ok(owner) => owner,
            Err(e) => {
                return Err(e);
            },
        };
        if knows(&self.schemas, id) || knows_as(&self.schemas, Some(share_id), name) {
            return Err(Error::Conflict);
        }
        let schema = Schema {
            id,
            name: name.to_owned(),
            share_id,
            share_name: owner.name,
            created_at: now,
        };
        let p = insert_row(&mut self.schemas, schema.clone());
        proof {
            let before = old(self).schemas@;
            let after = self.schemas@;
            assert(self.owns(schema)) by {
                let w = choose|w: int|
                    0 <= w < self.shares.len() && #[trigger] self.shares@[w] == owner
                        && share_with_id(share_id)(owner);
                assert(self.shares[w].id == share_id && self.shares[w].name@ == schema.share_name@);
            }
            assert forall|i: int, j: int| 0 <= i < j < after.len() implies (#[trigger] after[i]).id
                != (#[trigger] after[j]).id && !(after[i].share_id == after[j].share_id
                && after[i].name@ == after[j].name@) by {
                lemma_insert_from(before, p as int, schema, i);
                lemma_insert_from(before, p as int, schema, j);
            }
            assert forall|i: int| 0 <= i < after.len() implies self.owns(#[trigger] after[i]) by {
                lemma_insert_from(before, p as int, schema, i);
                if i < p {
                    assert(old(self).owns(old(self).schemas[i]));
                } else if i > p {
                    assert(old(self).owns(old(self).schemas[i - 1]));
                }
            }
            assert forall|i: int| 0 <= i < self.tables.len() implies self.has_schema(
                (#[trigger] self.tables[i]).schema_id,
            ) by {
                assert(old(self).has_schema(old(self).tables[i].schema_id));
                let k = choose|k: int|
                    0 <= k < before.len() && (#[trigger] before[k]).id == self.tables[i].schema_id;
                lemma_insert_keeps(before, p as int, schema, k);
            }
            assert(self.shares_ok());
            assert(self.schemas_ok());
            assert(self.tables_ok());
            assert(self.tokens_ok());
            assert(self.grants_ok());
        }
        Ok(schema)
    }

    fn knows_tables(&self, tables: &[u128]) -> (known: bool)
        ensures
            known == forall|i: int| 0 <= i < tables@.len() ==> self.has_table(#[trigger] tables@[i]),
    {
        let mut i: usize = 0;
        while i < tables.len()
            invariant
                i <= tables.len(),
                forall|j: int| 0 <= j < i ==> self.has_table(#[trigger] tables@[j]),
            decreases tables.len() - i,
        {
            if !knows(&self.tables, tables[i]) {
                return false;
            }
            i = i + 1;
        }
        true
    }

    /// Adds a table to the schema `schema_id` under the given id, created at
    /// `now`.
    pub fn add_table(
        &mut self,
        id: u128,
        name: &str,
        location: &str,
        schema_id: u128,
        now: i64,
    ) -> (added: Result<PrimitiveTable, Error>)
        requires
            old(self).wf(),
        ensures
            final(self).wf(),
            final(self).table_added(*old(self), id, name@, location@, schema_id, now, added),
    {
        if !knows(&self.schemas, schema_id) {
            return Err(Error::NotFound);
        }
        if knows(&self.tables, id) || knows_as(&self.tables, Some(schema_id), name) {
            return Err(Error::Conflict);
        }
        let table = PrimitiveTable {
            id,
            name: name.to_owned(),
            location: location.to_owned(),
            schema_id,
            created_at: now,
        };
        let p = insert_row(&mut self.tables, table.clone());
        proof {
            let before = old(self).tables@;
            let after = self.tables@;
            assert forall|i: int, j: int| 0 <= i < j < after.len() implies (#[trigger] after[i]).id
                != (#[trigger] after[j]).id && !(after[i].schema_id == after[j].schema_id
                && after[i].name@ == after[j].name@) by {
                lemma_insert_from(before, p as int, table, i);
                lemma_insert_from(before, p as int, table, j);
            }
            assert forall|i: int| 0 <= i < after.len() implies self.has_schema(
                (#[trigger] after[i]).schema_id,
            ) by {
                lemma_insert_from(before, p as int, table, i);
                if i < p {
                    assert(old(self).has_schema(old(self).tables[i].schema_id));
                } else if i > p {
                    assert(old(self).has_schema(old(self).tables[i - 1].schema_id));
                }
            }
            assert forall|i: int| 0 <= i < self.grants.len() implies self.has_token(
                (#[trigger] self.grants[i]).token_id,
            ) && self.has_table(self.grants[i].table_id) by {
                assert(old(self).has_token(old(self).grants[i].token_id));
                assert(old(self).has_table(old(self).grants[i].table_id));
                lemma_row_stays(old(self).tables@, self.tables@, p as int, table, self.grants[i].table_id);
            }
            assert(self.shares_ok());
            assert(self.schemas_ok());
            assert(self.tables_ok());
            assert(self.tokens_ok());
            assert(self.grants_ok());
        }
        Ok(table)
    }

    /// Adds a token under the given id and secret, created at `now` and
    /// valid for thirty days, with one grant for each of `tables`. Either
    /// the token and all its grants are added, or nothing is.
    pub fn add_token(
        &mut self,
        id: u128,
        secret: &str,
        name: &str,
        tables: &[u128],
        now: i64,
    ) -> (added: Result<Token, Error>)
        requires
            old(self).wf(),
            now + TOKEN_LIFETIME_SECS <= i64::MAX,
        ensures
            final(self).wf(),
            final(self).token_added(*old(self), id, secret@, name@, tables@, now, added),
    {
        if knows(&self.tokens, id) || knows_as(&self.tokens, None, secret) {
            return Err(Error::Conflict);
        }
        if !self.knows_tables(tables) {
            return Err(Error::NotFound);
        }
        let mut grants: Vec<Grant> = Vec::new();
        let mut i: usize = 0;
        while i < tables.len()
            invariant
                i <= tables.len(),
                grants@ =~= grants_for(id, tables@.take(i as int)),
            decreases tables.len() - i,
        {
            grants.push(Grant { token_id: id, table_id: tables[i] });
            i = i + 1;
        }
        assert(tables@.take(tables.len() as int) =~= tables@);
        let token = Token {
            id,
            name: name.to_owned(),
            token: secret.to_owned(),
            expires_at: now + TOKEN_LIFETIME_SECS,
            created_at: now,
        };
        let p = insert_row(&mut self.tokens, token.clone());
        self.grants.append(&mut grants);
        proof {
            let before = old(self).tokens@;
            let after = self.tokens@;
            assert forall|i: int, j: int| 0 <= i < j < after.len() implies (#[trigger] after[i]).id
                != (#[trigger] after[j]).id && after[i].token@ != after[j].token@ by {
                lemma_insert_from(before, p as int, token, i);
                lemma_insert_from(before, p as int, token, j);
            }
            assert forall|i: int| 0 <= i < self.grants.len() implies self.has_token(
                (#[trigger] self.grants[i]).token_id,
            ) && self.has_table(self.grants[i].table_id) by {
                if i < old(self).grants.len() {
                    assert(self.grants[i] == old(self).grants[i]);
                    assert(old(self).has_token(old(self).grants[i].token_id));
                    assert(old(self).has_table(old(self).grants[i].table_id));
                    lemma_row_stays(old(self).tokens@, self.tokens@, p as int, token, self.grants[i].token_id);
                } else {
                    let t = i - old(self).grants.len();
                    assert(self.grants[i] == grants_for(id, tables@)[t]);
                    assert(old(self).has_table(tables@[t]));
                    lemma_insert_from(before, p as int, token, p as int);
                    assert(after[p as int].id == id);
                }
            }
            assert(self.shares_ok());
            assert(self.schemas_ok());
            assert(self.tables_ok());
            assert(self.tokens_ok());
            assert(self.grants_ok());
        }
        Ok(token)
    }
}

/// The catalog row in the outcome of creating a table.
pub open spec fn row_of(created: Result<Table, Error>) -> Result<PrimitiveTable, Error> {
    match created {
        Ok(table) => Ok(table.inner),
        Err(e) => Err(e),
    }
}

impl Share {
    /// Creates a share at `now`, under a random id. The outcome is that of
    /// `Catalog::add_share` for the id that was drawn: the name must be
    /// free, and a refusal leaves the catalog as it was.
    pub fn create(name: &str, now: i64, db: &mut Catalog) -> (created: Result<Share, Error>)
        requires
            old(db).wf(),
        ensures
            final(db).wf(),
            exists|id: u128| #[trigger] final(db).share_added(*old(db), id, name@, now, created),
    {
        let id = fresh_id();
        db.add_share(id, name, now)
    }
}

impl Schema {
    /// Creates a schema in the share `share_id` at `now`, under a random id.
    /// The outcome is that of `Catalog::add_schema` for the id that was
    /// drawn: the share must exist and the name be free within it, and a
    /// refusal leaves the catalog as it was.
    pub fn create(name: &str, share_id: u128, now: i64, db: &mut Catalog) -> (created: Result<
        Schema,
        Error,
    >)
        requires
            old(db).wf(),
        ensures
            final(db).wf(),
            exists|id: u128| #[trigger]
                final(db).schema_added(*old(db), id, name@, share_id, now, created),
    {
        let id = fresh_id();
        db.add_schema(id, name, share_id, now)
    }
}

impl Table {
    /// Creates a table in the schema `schema_id` at `now`, under a random
    /// id, and hands it out with its schema, not loaded. The outcome is that
    /// of `Catalog::add_table` for the id that was drawn: the schema must
    /// exist and the name be free within it, and a refusal leaves the
    /// catalog as it was.
    pub fn create(name: &str, location: &str, schema_id: u128, now: i64, db: &mut Catalog) -> (created:
        Result<Table, Error>)
        requires
            old(db).wf(),
        ensures
            final(db).wf(),
            exists|id: u128| #[trigger]
                final(db).table_added(
                    *old(db),
                    id,
                    name@,
                    location@,
                    schema_id,
                    now,
                    row_of(created),
                ),
            created matches Ok(table) ==> table.delta_table is None && is_first(
                old(db).schemas@,
                schema_with_id(schema_id),
                table.schema,
            ),
    {
        let id = fresh_id();
        let schema = match Schema::by_id(schema_id, db) {
            Ok(schema) => schema,
            Err(e) => {
                let created = Err(e);
                assert(!db.has_schema(schema_id));
                assert(db.table_added(
                    *old(db),
                    id,
                    name@,
                    location@,
                    schema_id,
                    now,
                    row_of(created),
                ));
                return created;
            },
        };
        let created = match db.add_table(id, name, location, schema_id, now) {
            Ok(inner) => Ok(Table { inner, schema, delta_table: None }),
            Err(e) => Err(e),
        };
        assert(db.table_added(*old(db), id, name@, location@, schema_id, now, row_of(created)));
        created
    }
}

impl Token {
    /// Creates a token at `now`, valid for thirty days, with a random id and
    /// a random secret in hyphenated form, and grants it each of `tables`.
    /// The outcome is that of `Catalog::add_token` for the values that were
    /// drawn. Either the token and all its grants are in the catalog
    /// afterwards, or the catalog is as it was: a table that does not exist
    /// refuses the whole token.
    pub fn generate(name: &str, tables: &[u128], now: i64, db: &mut Catalog) -> (token: Result<
        Token,
        Error,
    >)
        requires
            old(db).wf(),
            now + TOKEN_LIFETIME_SECS <= i64::MAX,
        ensures
            final(db).wf(),
            exists|id: u128, seed: u128| #[trigger]
                final(db).token_added(
                    *old(db),
                    id,
                    hyphenated_text(seed),
                    name@,
                    tables@,
                    now,
                    token,
                ),
            token is Err ==> *final(db) == *old(db),
    {
        let id = fresh_id();
        let seed = fresh_id();
        let secret = hyphenated(seed);
        db.add_token(id, secret.as_str(), name, tables, now)
    }
}

/// A token is created whole or not at all. Where one of the tables it is
/// to reach does not exist, the token is refused, and the catalog holds no
/// trace of it afterwards: no token and no grant has been added.
pub proof fn unknown_table_refuses_token(
    before: Catalog,
    after: Catalog,
    id: u128,
    secret: Seq<char>,
    name: Seq<char>,
    tables: Seq<u128>,
    now: i64,
    outcome: Result<Token, Error>,
    unknown: int,
)
    requires
        0 <= unknown < tables.len(),
        !before.has_table(tables[unknown]),
        after.token_added(before, id, secret, name, tables, now, outcome),
    ensures
        outcome is Err,
        after == before,
        after.tokens@ == before.tokens@,
        after.grants@ == before.grants@,
{
}

/// What creation leaves behind is all or nothing in general: a refusal of
/// any kind leaves the catalog as it was.
pub proof fn refusal_changes_nothing(
    before: Catalog,
    after: Catalog,
    id: u128,
    secret: Seq<char>,
    name: Seq<char>,
    tables: Seq<u128>,
    now: i64,
    outcome: Result<Token, Error>,
)
    requires
        after.token_added(before, id, secret, name, tables, now, outcome),
    ensures
        outcome is Err ==> after == before,
        outcome is Ok ==> after.grants@.len() == before.grants@.len() + tables.len()
            && after.tokens@.len() == before.tokens@.len() + 1,
{
    if outcome is Ok {
        let token = outcome->Ok_0;
        let p = choose|p: int|
            {
                &&& 0 <= p <= before.tokens@.len()
                &&& #[trigger] before.tokens@.insert(p, token) == after.tokens@
                &&& forall|i: int| 0 <= i < p ==> before.tokens@[i].created() <= token.created()
                &&& forall|i: int|
                    p <= i < before.tokens@.len() ==> before.tokens@[i].created() > token.created()
            };
        lemma_insert_from(before.tokens@, p, token, p);
    }
}

} // verus!

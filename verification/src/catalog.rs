//! The catalog: shares, schemas, tables, tokens and grants, each kind of
//! row held in the order of its creation time, and the rules that decide
//! what a token may see.

use vstd::prelude::*;
use crate::models::{Grant, PrimitiveTable, Schema, Share, Token};
use crate::text::same_text;

verus! {

/// A row that records when it was created.
pub trait Dated {
    /// The time of creation.
    spec fn created(&self) -> i64;

    /// The time of creation.
    fn created_at(&self) -> (at: i64)
        ensures
            at == self.created(),
    ;
}

impl Dated for Share {
    open spec fn created(&self) -> i64 {
        self.created_at
    }

    fn created_at(&self) -> (at: i64) {
        self.created_at
    }
}

impl Dated for Schema {
    open spec fn created(&self) -> i64 {
        self.created_at
    }

    fn created_at(&self) -> (at: i64) {
        self.created_at
    }
}

impl Dated for PrimitiveTable {
    open spec fn created(&self) -> i64 {
        self.created_at
    }

    fn created_at(&self) -> (at: i64) {
        self.created_at
    }
}

impl Dated for Token {
    open spec fn created(&self) -> i64 {
        self.created_at
    }

    fn created_at(&self) -> (at: i64) {
        self.created_at
    }
}

/// A row that is found by its id, and by a text within its owner: a schema
/// by its name within its share, a table by its name within its schema, a
/// share by its name, a token by its secret.
pub trait Keyed {
    /// The id of the row.
    spec fn key(&self) -> u128;

    /// The id of the owner, if the row has one, and the text that the row is
    /// found by within it.
    spec fn label(&self) -> (Option<u128>, Seq<char>);

    /// The id of the row.
    fn id(&self) -> (id: u128)
        ensures
            id == self.key(),
    ;

    /// Decides whether the row goes by `text` within `owner`.
    fn goes_by(&self, owner: Option<u128>, text: &str) -> (so: bool)
        ensures
            so == (self.label() == (owner, text@)),
    ;
}

impl Keyed for Share {
    open spec fn key(&self) -> u128 {
        self.id
    }

    open spec fn label(&self) -> (Option<u128>, Seq<char>) {
        (None, self.name@)
    }

    fn id(&self) -> (id: u128) {
        self.id
    }

    fn goes_by(&self, owner: Option<u128>, text: &str) -> (so: bool) {
        owner.is_none() && same_text(&self.name, text)
    }
}

impl Keyed for Schema {
    open spec fn key(&self) -> u128 {
        self.id
    }

    open spec fn label(&self) -> (Option<u128>, Seq<char>) {
        (Some(self.share_id), self.name@)
    }

    fn id(&self) -> (id: u128) {
        self.id
    }

    fn goes_by(&self, owner: Option<u128>, text: &str) -> (so: bool) {
        match owner {
            Some(owner) => self.share_id == owner && same_text(&self.name, text),
            None => false,
        }
    }
}

impl Keyed for PrimitiveTable {
    open spec fn key(&self) -> u128 {
        self.id
    }

    open spec fn label(&self) -> (Option<u128>, Seq<char>) {
        (Some(self.schema_id), self.name@)
    }

    fn id(&self) -> (id: u128) {
        self.id
    }

    fn goes_by(&self, owner: Option<u128>, text: &str) -> (so: bool) {
        match owner {
            Some(owner) => self.schema_id == owner && same_text(&self.name, text),
            None => false,
        }
    }
}

impl Keyed for Token {
    open spec fn key(&self) -> u128 {
        self.id
    }

    open spec fn label(&self) -> (Option<u128>, Seq<char>) {
        (None, self.token@)
    }

    fn id(&self) -> (id: u128) {
        self.id
    }

    fn goes_by(&self, owner: Option<u128>, text: &str) -> (so: bool) {
        owner.is_none() && same_text(&self.token, text)
    }
}

/// Whether one of the rows has the given id.
pub open spec fn has_key<T: Keyed>(rows: Seq<T>, id: u128) -> bool {
    exists|i: int| 0 <= i < rows.len() && (#[trigger] rows[i]).key() == id
}

/// Whether one of the rows goes by `text` within `owner`.
pub open spec fn has_label<T: Keyed>(rows: Seq<T>, owner: Option<u128>, text: Seq<char>) -> bool {
    exists|i: int| 0 <= i < rows.len() && (#[trigger] rows[i]).label() == (owner, text)
}

/// Searches the rows for an id.
pub fn knows<T: Keyed>(rows: &Vec<T>, id: u128) -> (known: bool)
    ensures
        known == has_key(rows@, id),
{
    let mut i: usize = 0;
    while i < rows.len()
        invariant
            i <= rows.len(),
            forall|j: int| 0 <= j < i ==> (#[trigger] rows@[j]).key() != id,
        decreases rows.len() - i,
    {
        if rows[i].id() == id {
            return true;
        }
        i = i + 1;
    }
    false
}

/// Searches the rows for one that goes by `text` within `owner`.
pub fn knows_as<T: Keyed>(rows: &Vec<T>, owner: Option<u128>, text: &str) -> (known: bool)
    ensures
        known == has_label(rows@, owner, text@),
{
    let mut i: usize = 0;
    while i < rows.len()
        invariant
            i <= rows.len(),
            forall|j: int| 0 <= j < i ==> (#[trigger] rows@[j]).label() != (owner, text@),
        decreases rows.len() - i,
    {
        if rows[i].goes_by(owner, text) {
            return true;
        }
        i = i + 1;
    }
    false
}

/// Whether rows stand in ascending order of creation time.
pub open spec fn by_time<T: Dated>(rows: Seq<T>) -> bool {
    forall|i: int, j: int| 0 <= i <= j < rows.len() ==> rows[i].created() <= rows[j].created()
}

/// Whether `after` is `before` with `row` put in at its place in time:
/// behind every row that is not younger, ahead of every younger one.
pub open spec fn placed<T: Dated>(before: Seq<T>, row: T, after: Seq<T>) -> bool {
    exists|p: int|
        {
            &&& 0 <= p <= before.len()
            &&& #[trigger] before.insert(p, row) == after
            &&& forall|i: int| 0 <= i < p ==> before[i].created() <= row.created()
            &&& forall|i: int| p <= i < before.len() ==> before[i].created() > row.created()
        }
}

/// The state of the catalog store.
#[derive(Debug, PartialEq, Eq)]
pub struct Catalog {
    pub shares: Vec<Share>,
    pub schemas: Vec<Schema>,
    pub tables: Vec<PrimitiveTable>,
    pub tokens: Vec<Token>,
    pub grants: Vec<Grant>,
}

impl Catalog {
    /// Whether a share has the given id.
    pub open spec fn has_share(&self, id: u128) -> bool {
        has_key(self.shares@, id)
    }

    /// Whether a schema has the given id.
    pub open spec fn has_schema(&self, id: u128) -> bool {
        has_key(self.schemas@, id)
    }

    /// Whether a table has the given id.
    pub open spec fn has_table(&self, id: u128) -> bool {
        has_key(self.tables@, id)
    }

    /// Whether a token has the given id.
    pub open spec fn has_token(&self, id: u128) -> bool {
        has_key(self.tokens@, id)
    }

    /// Whether a share has the given name.
    pub open spec fn has_share_named(&self, name: Seq<char>) -> bool {
        has_label(self.shares@, None, name)
    }

    /// Whether the share `share_id` has a schema of the given name.
    pub open spec fn has_schema_named(&self, share_id: u128, name: Seq<char>) -> bool {
        has_label(self.schemas@, Some(share_id), name)
    }

    /// Whether the schema `schema_id` has a table of the given name.
    pub open spec fn has_table_named(&self, schema_id: u128, name: Seq<char>) -> bool {
        has_label(self.tables@, Some(schema_id), name)
    }

    /// Whether a token carries the given secret.
    pub open spec fn has_secret(&self, secret: Seq<char>) -> bool {
        has_label(self.tokens@, None, secret)
    }

    /// The rules on shares: ids and names are unique, rows stand in order of
    /// creation time.
    pub open spec fn shares_ok(&self) -> bool {
        &&& by_time(self.shares@)
        &&& forall|i: int, j: int|
            0 <= i < j < self.shares.len() ==> (#[trigger] self.shares[i]).id != (
            #[trigger] self.shares[j]).id && self.shares[i].name@ != self.shares[j].name@
    }

    /// The rules on schemas: ids are unique, names are unique within a
    /// share, the owning share exists under the recorded name, rows stand in
    /// order of creation time.
    pub open spec fn schemas_ok(&self) -> bool {
        &&& by_time(self.schemas@)
        &&& forall|i: int, j: int|
            0 <= i < j < self.schemas.len() ==> (#[trigger] self.schemas[i]).id != (
            #[trigger] self.schemas[j]).id && !(self.schemas[i].share_id
                == self.schemas[j].share_id && self.schemas[i].name@ == self.schemas[j].name@)
        &&& forall|i: int|
            0 <= i < self.schemas.len() ==> self.owns(#[trigger] self.schemas[i])
    }

    /// Whether the share that `schema` names as its owner exists, under the
    /// name that the schema records.
    pub open spec fn owns(&self, schema: Schema) -> bool {
        exists|k: int|
            0 <= k < self.shares.len() && (#[trigger] self.shares[k]).id == schema.share_id
                && self.shares[k].name@ == schema.share_name@
    }

    /// The rules on tables: ids are unique, names are unique within a
    /// schema, the owning schema exists, rows stand in order of creation
    /// time.
    pub open spec fn tables_ok(&self) -> bool {
        &&& by_time(self.tables@)
        &&& forall|i: int, j: int|
            0 <= i < j < self.tables.len() ==> (#[trigger] self.tables[i]).id != (
            #[trigger] self.tables[j]).id && !(self.tables[i].schema_id
                == self.tables[j].schema_id && self.tables[i].name@ == self.tables[j].name@)
        &&& forall|i: int|
            0 <= i < self.tables.len() ==> self.has_schema((#[trigger] self.tables[i]).schema_id)
    }

    /// The rules on tokens: ids and secrets are unique, rows stand in order
    /// of creation time.
    pub open spec fn tokens_ok(&self) -> bool {
        &&& by_time(self.tokens@)
        &&& forall|i: int, j: int|
            0 <= i < j < self.tokens.len() ==> (#[trigger] self.tokens[i]).id != (
            #[trigger] self.tokens[j]).id && self.tokens[i].token@ != self.tokens[j].token@
    }

    /// The rule on grants: token and table of every grant exist.
    pub open spec fn grants_ok(&self) -> bool {
        forall|i: int|
            0 <= i < self.grants.len() ==> self.has_token((#[trigger] self.grants[i]).token_id)
                && self.has_table(self.grants[i].table_id)
    }

    /// Whether the catalog keeps all its rules.
    pub open spec fn wf(&self) -> bool {
        &&& self.shares_ok()
        &&& self.schemas_ok()
        &&& self.tables_ok()
        &&& self.tokens_ok()
        &&& self.grants_ok()
    }

    /// Whether the token `token_id` exists and has not expired at `now`.
    pub open spec fn token_live(&self, token_id: u128, now: i64) -> bool {
        exists|i: int|
            0 <= i < self.tokens.len() && (#[trigger] self.tokens[i]).id == token_id
                && self.tokens[i].expires_at > now
    }

    /// Whether a grant makes the table visible under the token.
    pub open spec fn granted(&self, token_id: u128, table_id: u128) -> bool {
        exists|i: int|
            0 <= i < self.grants.len() && #[trigger] self.grants[i] == (Grant {
                token_id,
                table_id,
            })
    }

    /// A table is visible under a token if the token is live and a grant
    /// joins the two.
    pub open spec fn table_visible(&self, table_id: u128, token_id: u128, now: i64) -> bool {
        self.token_live(token_id, now) && self.granted(token_id, table_id)
    }

    /// A schema is visible under a token if one of its tables is.
    pub open spec fn schema_visible(&self, schema_id: u128, token_id: u128, now: i64) -> bool {
        exists|i: int|
            0 <= i < self.tables.len() && (#[trigger] self.tables[i]).schema_id == schema_id
                && self.table_visible(self.tables[i].id, token_id, now)
    }

    /// A share is visible under a token if one of its schemas is.
    pub open spec fn share_visible(&self, share_id: u128, token_id: u128, now: i64) -> bool {
        exists|i: int|
            0 <= i < self.schemas.len() && (#[trigger] self.schemas[i]).share_id == share_id
                && self.schema_visible(self.schemas[i].id, token_id, now)
    }

    /// The ids of the tables that a token reaches at `now`, in order of the
    /// tables' creation: what every question of the token is answered
    /// against.
    pub open spec fn reach(&self, token_id: u128, now: i64) -> Seq<u128> {
        self.tables@.filter(table_reached(*self, token_id, now)).map_values(
            |t: PrimitiveTable| t.id,
        )
    }

    /// An empty catalog.
    pub fn new() -> (db: Catalog)
        ensures
            db.wf(),
            db.shares@.len() == 0,
            db.schemas@.len() == 0,
            db.tables@.len() == 0,
            db.tokens@.len() == 0,
            db.grants@.len() == 0,
    {
        Catalog {
            shares: Vec::new(),
            schemas: Vec::new(),
            tables: Vec::new(),
            tokens: Vec::new(),
            grants: Vec::new(),
        }
    }

    /// Decides whether the token exists and has not expired.
    pub fn is_live(&self, token_id: u128, now: i64) -> (live: bool)
        ensures
            live == self.token_live(token_id, now),
    {
        let mut i: usize = 0;
        while i < self.tokens.len()
            invariant
                i <= self.tokens.len(),
                forall|j: int|
                    0 <= j < i ==> !((#[trigger] self.tokens[j]).id == token_id
                        && self.tokens[j].expires_at > now),
            decreases self.tokens.len() - i,
        {
            if self.tokens[i].id == token_id && self.tokens[i].expires_at > now {
                return true;
            }
            i = i + 1;
        }
        false
    }

    /// Decides whether a grant joins token and table.
    pub fn is_granted(&self, token_id: u128, table_id: u128) -> (granted: bool)
        ensures
            granted == self.granted(token_id, table_id),
    {
        let mut i: usize = 0;
        while i < self.grants.len()
            invariant
                i <= self.grants.len(),
                forall|j: int|
                    0 <= j < i ==> #[trigger] self.grants[j] != (Grant { token_id, table_id }),
            decreases self.grants.len() - i,
        {
            if self.grants[i].token_id == token_id && self.grants[i].table_id == table_id {
                return true;
            }
            i = i + 1;
        }
        false
    }

    /// Decides whether a table is visible under a token.
    pub fn sees_table(&self, table_id: u128, token_id: u128, now: i64) -> (visible: bool)
        ensures
            visible == self.table_visible(table_id, token_id, now),
    {
        self.is_live(token_id, now) && self.is_granted(token_id, table_id)
    }

    /// Decides whether a schema is visible under a token.
    pub fn sees_schema(&self, schema_id: u128, token_id: u128, now: i64) -> (visible: bool)
        ensures
            visible == self.schema_visible(schema_id, token_id, now),
    {
        let mut i: usize = 0;
        while i < self.tables.len()
            invariant
                i <= self.tables.len(),
                forall|j: int|
                    0 <= j < i ==> !((#[trigger] self.tables[j]).schema_id == schema_id
                        && self.table_visible(self.tables[j].id, token_id, now)),
            decreases self.tables.len() - i,
        {
            if self.tables[i].schema_id == schema_id && self.sees_table(
                self.tables[i].id,
                token_id,
                now,
            ) {
                return true;
            }
            i = i + 1;
        }
        false
    }

    /// Decides whether a share is visible under a token.
    pub fn sees_share(&self, share_id: u128, token_id: u128, now: i64) -> (visible: bool)
        ensures
            visible == self.share_visible(share_id, token_id, now),
    {
        let mut i: usize = 0;
        while i < self.schemas.len()
            invariant
                i <= self.schemas.len(),
                forall|j: int|
                    0 <= j < i ==> !((#[trigger] self.schemas[j]).share_id == share_id
                        && self.schema_visible(self.schemas[j].id, token_id, now)),
            decreases self.schemas.len() - i,
        {
            if self.schemas[i].share_id == share_id && self.sees_schema(
                self.schemas[i].id,
                token_id,
                now,
            ) {
                return true;
            }
            i = i + 1;
        }
        false
    }
}

/// Tables that a token reaches at `now`, whatever their schema.
pub open spec fn table_reached(db: Catalog, token_id: u128, now: i64) -> spec_fn(
    PrimitiveTable,
) -> bool {
    |t: PrimitiveTable| db.table_visible(t.id, token_id, now)
}

impl Catalog {
    /// Gathers the ids of the tables that a token reaches at `now`.
    pub fn visible_tables(&self, token_id: u128, now: i64) -> (ids: Vec<u128>)
        ensures
            ids@ == self.reach(token_id, now),
    {
        let mut ids: Vec<u128> = Vec::new();
        let mut i: usize = 0;
        while i < self.tables.len()
            invariant
                i <= self.tables.len(),
                ids@ =~= self.tables@.take(i as int).filter(
                    table_reached(*self, token_id, now),
                ).map_values(|t: PrimitiveTable| t.id),
            decreases self.tables.len() - i,
        {
            proof {
                lemma_filter_step(self.tables@, table_reached(*self, token_id, now), i as int);
            }
            if self.sees_table(self.tables[i].id, token_id, now) {
                ids.push(self.tables[i].id);
            }
            i = i + 1;
        }
        assert(self.tables@.take(self.tables.len() as int) =~= self.tables@);
        ids
    }
}

/// Filtering one more row either appends it or changes nothing.
pub proof fn lemma_filter_step<T>(rows: Seq<T>, keep: spec_fn(T) -> bool, i: int)
    requires
        0 <= i < rows.len(),
    ensures
        rows.take(i + 1).filter(keep) == if keep(rows[i]) {
            rows.take(i).filter(keep).push(rows[i])
        } else {
            rows.take(i).filter(keep)
        },
{
    reveal(Seq::filter);
    assert(rows.take(i + 1).drop_last() =~= rows.take(i));
}

} // verus!

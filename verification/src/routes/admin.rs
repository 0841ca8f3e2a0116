//! The administrative surface: an overview of the catalog, and the forms
//! that add schemas, tables and tokens.

use vstd::prelude::*;
use vstd::string::*;
use crate::catalog::Catalog;
use crate::creation::{row_of, TOKEN_LIFETIME_SECS};
use crate::error::Error;
use crate::ids::{hyphenated_text, id_of_text, parse_id};
use crate::json::{json_string, json_string_text};
use crate::models::{Schema, Share, Table, Token};
use crate::queries::{is_first, live_tokens, none_match, schema_with_id, token_with_id};
use crate::routes::{failure, failure_view, ok, ok_view, redirect, redirect_view, Response, ResponseView};
use crate::state::User;

verus! {

/// Where the forms send the administrator when they are done.
pub const HOME: &'static str = "/admin";

/// The address of the data plane that is handed to clients where none is
/// configured.
pub const DEFAULT_ENDPOINT: &'static str = "http://localhost:8000/api/v1";

/// The answer to a request without an administrator's credentials: 401 with
/// a challenge for the Basic scheme.
pub open spec fn challenge_view() -> ResponseView {
    ResponseView {
        status: 401,
        headers: seq![("WWW-Authenticate"@, "Basic"@)],
        body: "howdy stranger"@,
    }
}

/// Lets a request through only if the transport found an administrator's
/// credentials on it; any other request is answered with the challenge
/// before a handler sees it.
pub fn require_admin(identity: Option<User>) -> (checked: Result<User, Response>)
    ensures
        match identity {
            Some(user) => checked matches Ok(passed) && passed == user,
            None => checked matches Err(response) && response@ == challenge_view(),
        },
{
    match identity {
        Some(user) => Ok(user),
        None => {
            let mut headers: Vec<(String, String)> = Vec::new();
            headers.push((String::from_str("WWW-Authenticate"), String::from_str("Basic")));
            let response = Response {
                status: 401,
                headers,
                body: String::from_str("howdy stranger"),
            };
            assert(response@.headers =~= seq![("WWW-Authenticate"@, "Basic"@)]);
            Err(response)
        },
    }
}

/// What the overview shows.
#[derive(Debug, PartialEq, Eq)]
pub struct Overview {
    pub tables: Vec<Table>,
    pub tokens: Vec<Token>,
    pub schemas: Vec<Schema>,
    pub shares: Vec<Share>,
}

/// The form that asks for a token.
#[derive(Debug, PartialEq, Eq)]
pub struct CreateForm {
    pub name: String,
    /// The ids of the tables that the token is to reach.
    pub tables: Vec<u128>,
}

/// The form that asks for a table.
#[derive(Debug, PartialEq, Eq)]
pub struct CreateTable {
    pub name: String,
    pub location: String,
    /// The id of the schema that is to own the table.
    pub schema: u128,
}

/// The form that asks for a schema.
#[derive(Debug, PartialEq, Eq)]
pub struct CreateSchema {
    pub name: String,
    /// The id of the share that is to own the schema.
    pub share: u128,
}

/// Gathers the overview: every share, schema and table, whatever the
/// grants, and the tokens that have not expired at `now`.
pub fn index(now: i64, db: &Catalog) -> (overview: Overview)
    requires
        db.wf(),
    ensures
        overview.shares@ == db.shares@,
        overview.schemas@ == db.schemas@,
        overview.tokens@ == live_tokens(*db, now),
        overview.tables.len() == db.tables.len(),
        forall|i: int|
            0 <= i < overview.tables.len() ==> {
                &&& (#[trigger] overview.tables[i]).inner == db.tables[i]
                &&& overview.tables[i].delta_table is None
                &&& is_first(
                    db.schemas@,
                    schema_with_id(db.tables[i].schema_id),
                    overview.tables[i].schema,
                )
            },
{
    let tables = Table::list_all(db);
    let tokens = Token::list_all(now, db);
    let schemas = Schema::list_all(db);
    let shares = Share::list_all(db);
    Overview { tables, tokens, schemas, shares }
}

/// The answer to a form once the catalog has dealt with it: on to the
/// overview, or the failure.
pub open spec fn form_view<T>(outcome: Result<T, Error>) -> ResponseView {
    match outcome {
        Ok(_) => redirect_view(HOME@),
        Err(e) => failure_view(e),
    }
}

/// Handles the form that asks for a token. A form that did not parse is
/// passed over: nothing is created and the administrator is sent on to the
/// overview. Otherwise a token is generated for the named tables, and the
/// answer is the overview again, or the failure where the token was
/// refused, in which case the catalog is as it was.
pub fn create_token(form: Option<CreateForm>, now: i64, db: &mut Catalog) -> (response: Response)
    requires
        old(db).wf(),
        now + TOKEN_LIFETIME_SECS <= i64::MAX,
    ensures
        final(db).wf(),
        match form {
            None => *final(db) == *old(db) && response@ == redirect_view(HOME@),
            Some(form) => exists|id: u128, seed: u128, token: Result<Token, Error>|
                {
                    &&& #[trigger] final(db).token_added(
                        *old(db),
                        id,
                        hyphenated_text(seed),
                        form.name@,
                        form.tables@,
                        now,
                        token,
                    )
                    &&& response@ == form_view(token)
                },
        },
        response.status != 302 ==> *final(db) == *old(db),
{
    match form {
        None => redirect(HOME),
        Some(form) => {
            let token = Token::generate(form.name.as_str(), form.tables.as_slice(), now, db);
            match token {
                Ok(_) => redirect(HOME),
                Err(e) => failure(e),
            }
        },
    }
}

/// The credentials that a client is given: `{"shareCredentialsVersion":1,
/// "bearerToken":T,"endpoint":E}`.
pub open spec fn credentials_text(secret: Seq<char>, endpoint: Seq<char>) -> Seq<char> {
    "{\"shareCredentialsVersion\":1,\"bearerToken\":"@ + json_string_text(secret)
        + ",\"endpoint\":"@ + json_string_text(endpoint) + "}"@
}

/// The address that clients are told to use: the configured one, or the
/// default.
pub open spec fn endpoint_or_default(endpoint: Option<Seq<char>>) -> Seq<char> {
    match endpoint {
        Some(e) => e,
        None => DEFAULT_ENDPOINT@,
    }
}

/// What asking for the credentials of the token `id` is answered with,
/// `parsed` being what the text of the id denotes: the credentials of the
/// first token with that id, `NotFound` where there is none, and
/// `Validation` where the text is no id.
pub open spec fn credentials_answer(
    db: Catalog,
    parsed: Option<u128>,
    endpoint: Seq<char>,
    response: ResponseView,
) -> bool {
    match parsed {
        None => response == failure_view(Error::Validation),
        Some(id) => {
            ||| none_match(db.tokens@, token_with_id(id)) && response == failure_view(
                Error::NotFound,
            )
            ||| exists|token: Token|
                #[trigger] is_first(db.tokens@, token_with_id(id), token) && response == ok_view(
                    credentials_text(token.token@, endpoint),
                )
        },
    }
}

/// Writes out the credentials of a token for a client: the secret and the
/// address of the data plane.
pub fn share_credentials(token: &Token, endpoint: &Option<String>) -> (body: String)
    ensures
        body@ == credentials_text(
            token.token@,
            endpoint_or_default(
                match *endpoint {
                    Some(e) => Some(e@),
                    None => None,
                },
            ),
        ),
{
    let mut body = String::from_str("{\"shareCredentialsVersion\":1,\"bearerToken\":");
    body.append(json_string(token.token.as_str()).as_str());
    body.append(",\"endpoint\":");
    match endpoint {
        Some(e) => {
            body.append(json_string(e.as_str()).as_str());
        },
        None => {
            body.append(json_string(DEFAULT_ENDPOINT).as_str());
        },
    }
    body.append("}");
    body
}

/// Reads the id of a token off a request; `Validation` where the text is
/// no id.
pub fn token_id_of(text: &str) -> (id: Result<u128, Error>)
    ensures
        match id_of_text(text@) {
            Some(value) => id == Ok::<u128, Error>(value),
            None => id == Err::<u128, Error>(Error::Validation),
        },
{
    match parse_id(text) {
        Some(value) => Ok(value),
        None => Err(Error::Validation),
    }
}

/// Handles the request for the credentials of the token whose id is written
/// in `id`.
pub fn download_share(id: &str, endpoint: &Option<String>, db: &Catalog) -> (response: Response)
    ensures
        credentials_answer(
            *db,
            id_of_text(id@),
            endpoint_or_default(
                match *endpoint {
                    Some(e) => Some(e@),
                    None => None,
                },
            ),
            response@,
        ),
{
    let token_id = match token_id_of(id) {
        Ok(token_id) => token_id,
        Err(e) => {
            return failure(e);
        },
    };
    match Token::by_id(token_id, db) {
        Ok(token) => ok(share_credentials(&token, endpoint)),
        Err(e) => failure(e),
    }
}

/// Handles the form that asks for a table: creates it at `now` and sends
/// the administrator on to the overview, or answers with the failure, in
/// which case the catalog is as it was.
pub fn create_table(form: &CreateTable, now: i64, db: &mut Catalog) -> (response: Response)
    requires
        old(db).wf(),
    ensures
        final(db).wf(),
        exists|id: u128, table: Result<Table, Error>|
            {
                &&& #[trigger] final(db).table_added(
                    *old(db),
                    id,
                    form.name@,
                    form.location@,
                    form.schema,
                    now,
                    row_of(table),
                )
                &&& response@ == form_view(table)
            },
        response.status != 302 ==> *final(db) == *old(db),
{
    let table = Table::create(form.name.as_str(), form.location.as_str(), form.schema, now, db);
    match table {
        Ok(_) => redirect(HOME),
        Err(e) => {
            let response = failure(e);
            assert(form_view(table) == failure_view(e));
            response
        },
    }
}

/// Handles the form that asks for a schema: creates it at `now` and sends
/// the administrator on to the overview, or answers with the failure, in
/// which case the catalog is as it was.
pub fn create_schema(form: &CreateSchema, now: i64, db: &mut Catalog) -> (response: Response)
    requires
        old(db).wf(),
    ensures
        final(db).wf(),
        exists|id: u128, schema: Result<Schema, Error>|
            {
                &&& #[trigger] final(db).schema_added(
                    *old(db),
                    id,
                    form.name@,
                    form.share,
                    now,
                    schema,
                )
                &&& response@ == form_view(schema)
            },
        response.status != 302 ==> *final(db) == *old(db),
{
    let schema = Schema::create(form.name.as_str(), form.share, now, db);
    match schema {
        Ok(_) => redirect(HOME),
        Err(e) => failure(e),
    }
}

} // verus!

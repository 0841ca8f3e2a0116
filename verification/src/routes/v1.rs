//! The data plane: what a client with a bearer token may ask.

use vstd::prelude::*;
use vstd::string::*;
use crate::catalog::Catalog;
use crate::error::Error;
use crate::json::{array, array_text, join, joined, json_string, json_string_text, texts};
use crate::models::{file_lines_outcome, Schema, Share, Table};
use crate::queries::{
    handles, is_first, listed_schemas, listed_shares, listed_tables, none_match, schema_named,
    table_lookup,
};
use crate::routes::{failure, failure_view, ok, ok_view, Response, ResponseView};
use crate::snapshot::{Snapshot, SnapshotView};
use crate::state::Tokened;
use crate::text::decimal;
use crate::wire::{metadata_line, metadata_line_text, protocol_line, protocol_line_text};

verus! {

/// The header that carries the version of a table.
pub const VERSION_HEADER: &'static str = "Delta-Table-Version";

/// The answer to a request without a valid token.
pub open spec fn unauthenticated_view() -> ResponseView {
    ResponseView { status: 401, headers: Seq::empty(), body: "Not authenticated"@ }
}

/// Lets a request through only if the transport found a valid token on it;
/// any other request is answered with 401 before a handler sees it.
pub fn require_token(identity: Option<Tokened>) -> (checked: Result<Tokened, Response>)
    ensures
        match identity {
            Some(client) => checked matches Ok(passed) && passed == client,
            None => checked matches Err(response) && response@ == unauthenticated_view(),
        },
{
    match identity {
        Some(client) => Ok(client),
        None => {
            let response = Response {
                status: 401,
                headers: Vec::new(),
                body: String::from_str("Not authenticated"),
            };
            assert(response@.headers =~= Seq::empty());
            Err(response)
        },
    }
}

/// What the first steps of a request for a table end in: the check of the
/// caller's identity, then the lookup of the table. A request without a
/// valid token is answered with 401 whatever it asks for; a table that is
/// absent or not visible to the token, with 404; otherwise the table is
/// handed on, not loaded.
pub open spec fn located(
    identity: Option<Tokened>,
    found: Result<Table, Error>,
    outcome: Result<Table, Response>,
) -> bool {
    match identity {
        None => outcome matches Err(response) && response@ == unauthenticated_view(),
        Some(_) => match found {
            Ok(table) => outcome matches Ok(passed) && passed == table,
            Err(e) => outcome matches Err(response) && response@ == failure_view(e),
        },
    }
}

/// Takes a request for a table through its first steps: checks the
/// caller's identity, then looks the table up as the caller sees it at
/// `now`.
pub fn locate(
    identity: Option<Tokened>,
    share: &str,
    schema: &str,
    table: &str,
    now: i64,
    db: &Catalog,
) -> (outcome: Result<Table, Response>)
    ensures
        identity is None ==> (outcome matches Err(response) && response@
            == unauthenticated_view()),
        identity matches Some(client) ==> exists|found: Result<Table, Error>|
            {
                &&& #[trigger] located(identity, found, outcome)
                &&& table_lookup(*db, share@, schema@, table@, client.id, now, found)
            },
{
    let client = match require_token(identity) {
        Ok(client) => client,
        Err(response) => {
            return Err(response);
        },
    };
    let found = Table::find(share, schema, table, client.id, now, db);
    let outcome = match found {
        Ok(table) => Ok(table),
        Err(e) => Err(failure(e)),
    };
    assert(located(identity, found, outcome));
    outcome
}

/// A list as it goes on the wire: `{"items":[..]}`. No page token is ever
/// given.
pub open spec fn paginated_text(items: Seq<Seq<char>>) -> Seq<char> {
    "{\"items\":"@ + array_text(items) + "}"@
}

/// A share in a list: `{"name":N}`.
pub open spec fn share_item_text(share: Share) -> Seq<char> {
    "{\"name\":"@ + json_string_text(share.name@) + "}"@
}

/// A schema in a list: `{"name":N,"share":S}`.
pub open spec fn schema_item_text(schema: Schema) -> Seq<char> {
    "{\"name\":"@ + json_string_text(schema.name@) + ",\"share\":"@ + json_string_text(
        schema.share_name@,
    ) + "}"@
}

/// A table in a list: `{"name":N,"share":S,"schema":C}`.
pub open spec fn table_item_text(table: Table) -> Seq<char> {
    "{\"name\":"@ + json_string_text(table.inner.name@) + ",\"share\":"@ + json_string_text(
        table.schema.share_name@,
    ) + ",\"schema\":"@ + json_string_text(table.schema.name@) + "}"@
}

fn paginated(items: &Vec<String>) -> (body: String)
    ensures
        body@ == paginated_text(texts(items@)),
{
    let mut body = String::from_str("{\"items\":");
    body.append(array(items).as_str());
    body.append("}");
    body
}

/// Lists the shares that the client sees at `now`.
pub fn list_shares(client: &Tokened, now: i64, db: &Catalog) -> (response: Response)
    ensures
        response@ == ok_view(
            paginated_text(
                listed_shares(*db, client.id, now).map_values(|s: Share| share_item_text(s)),
            ),
        ),
{
    let shares = Share::list_by_token(client.id, now, db);
    let ghost want = shares@.map_values(|s: Share| share_item_text(s));
    let mut items: Vec<String> = Vec::new();
    let mut i: usize = 0;
    while i < shares.len()
        invariant
            i <= shares.len(),
            want == shares@.map_values(|s: Share| share_item_text(s)),
            texts(items@) =~= want.take(i as int),
        decreases shares.len() - i,
    {
        let mut item = String::from_str("{\"name\":");
        item.append(json_string(shares[i].name.as_str()).as_str());
        item.append("}");
        proof {
            assert(want[i as int] == item@);
            assert(texts(items@.push(item)) =~= texts(items@).push(item@));
            assert(want.take(i + 1) =~= want.take(i as int).push(want[i as int]));
        }
        items.push(item);
        i = i + 1;
    }
    assert(want.take(shares.len() as int) =~= want);
    ok(paginated(&items))
}

/// Lists the schemas of the share named `share` that the client sees at
/// `now`.
pub fn list_schemas(share: &str, client: &Tokened, now: i64, db: &Catalog) -> (response: Response)
    ensures
        response@ == ok_view(
            paginated_text(
                listed_schemas(*db, share@, client.id, now).map_values(
                    |s: Schema| schema_item_text(s),
                ),
            ),
        ),
{
    let schemas = Schema::list_by_token(share, client.id, now, db);
    let ghost want = schemas@.map_values(|s: Schema| schema_item_text(s));
    let mut items: Vec<String> = Vec::new();
    let mut i: usize = 0;
    while i < schemas.len()
        invariant
            i <= schemas.len(),
            want == schemas@.map_values(|s: Schema| schema_item_text(s)),
            texts(items@) =~= want.take(i as int),
        decreases schemas.len() - i,
    {
        let mut item = String::from_str("{\"name\":");
        item.append(json_string(schemas[i].name.as_str()).as_str());
        item.append(",\"share\":");
        item.append(json_string(schemas[i].share_name.as_str()).as_str());
        item.append("}");
        proof {
            assert(want[i as int] == item@);
            assert(texts(items@.push(item)) =~= texts(items@).push(item@));
            assert(want.take(i + 1) =~= want.take(i as int).push(want[i as int]));
        }
        items.push(item);
        i = i + 1;
    }
    assert(want.take(schemas.len() as int) =~= want);
    ok(paginated(&items))
}

/// Lists the tables of the schema named `schema` in the share named `share`
/// that the client sees at `now`; 404 where the share has no such schema.
pub fn list_tables(share: &str, schema: &str, client: &Tokened, now: i64, db: &Catalog) -> (response:
    Response)
    ensures
        none_match(db.schemas@, schema_named(share@, schema@)) ==> response@ == failure_view(
            Error::NotFound,
        ),
        !none_match(db.schemas@, schema_named(share@, schema@)) ==> exists|owner: Schema|
            {
                &&& #[trigger] is_first(db.schemas@, schema_named(share@, schema@), owner)
                &&& response@ == ok_view(
                    paginated_text(
                        handles(listed_tables(*db, owner.id, client.id, now), owner).map_values(
                            |t: Table| table_item_text(t),
                        ),
                    ),
                )
            },
{
    let tables = match Table::list_by_token(share, schema, client.id, now, db) {
        Ok(tables) => tables,
        Err(e) => {
            return failure(e);
        },
    };
    let ghost want = tables@.map_values(|t: Table| table_item_text(t));
    let mut items: Vec<String> = Vec::new();
    let mut i: usize = 0;
    while i < tables.len()
        invariant
            i <= tables.len(),
            want == tables@.map_values(|t: Table| table_item_text(t)),
            texts(items@) =~= want.take(i as int),
        decreases tables.len() - i,
    {
        let mut item = String::from_str("{\"name\":");
        item.append(json_string(tables[i].name()).as_str());
        item.append(",\"share\":");
        item.append(json_string(tables[i].share()).as_str());
        item.append(",\"schema\":");
        item.append(json_string(tables[i].schema()).as_str());
        item.append("}");
        proof {
            assert(want[i as int] == item@);
            assert(texts(items@.push(item)) =~= texts(items@).push(item@));
            assert(want.take(i + 1) =~= want.take(i as int).push(want[i as int]));
        }
        items.push(item);
        i = i + 1;
    }
    assert(want.take(tables.len() as int) =~= want);
    ok(paginated(&items))
}

/// Whether an answer carries the version of the table in its header.
pub open spec fn carries_version(response: ResponseView, version: int) -> bool {
    response.headers == seq![(VERSION_HEADER@, decimal(version))]
}

/// The body of an answer: its lines with a line feed between neighbours.
pub open spec fn body_text(lines: Seq<Seq<char>>) -> Seq<char> {
    joined(lines, "\n"@)
}

/// The answer that gives the version of a table: the header, no body.
pub open spec fn version_view(snapshot: SnapshotView) -> ResponseView {
    ResponseView {
        status: 200,
        headers: seq![(VERSION_HEADER@, decimal(snapshot.version))],
        body: Seq::empty(),
    }
}

/// The answer that describes a table: the header, then the protocol line
/// and the metadata line.
pub open spec fn metadata_view(snapshot: SnapshotView) -> ResponseView {
    ResponseView {
        status: 200,
        headers: seq![(VERSION_HEADER@, decimal(snapshot.version))],
        body: body_text(
            seq![
                protocol_line_text(snapshot.min_reader_version),
                metadata_line_text(snapshot.metadata),
            ],
        ),
    }
}

/// What a query of a table may be answered with. Where every file of the
/// snapshot can be signed: the header, then the protocol line, the
/// metadata line and one line for each file, in the snapshot's order.
/// Otherwise: the failure to sign, and no part of the lines.
pub open spec fn query_answer(snapshot: SnapshotView, response: ResponseView) -> bool {
    ||| response == failure_view(Error::UpstreamSigning) && file_lines_outcome(
        snapshot,
        Err(Error::UpstreamSigning),
    )
    ||| exists|lines: Vec<String>|
        {
            &&& #[trigger] file_lines_outcome(snapshot, Ok(lines))
            &&& response.status == 200
            &&& carries_version(response, snapshot.version)
            &&& response.body == body_text(
                seq![
                    protocol_line_text(snapshot.min_reader_version),
                    metadata_line_text(snapshot.metadata),
                ] + texts(lines@),
            )
        }
}

fn versioned(version: String, body: String) -> (response: Response)
    ensures
        response@ == (ResponseView {
            status: 200,
            headers: seq![(VERSION_HEADER@, version@)],
            body: body@,
        }),
{
    let mut headers: Vec<(String, String)> = Vec::new();
    headers.push((String::from_str(VERSION_HEADER), version));
    let response = Response { status: 200, headers, body };
    assert(response@.headers =~= seq![(VERSION_HEADER@, version@)]);
    response
}

/// Answers a request for the version of a table that was found, given what
/// the reader made of its location: 200 with the version in the header and
/// no body, or 500 where the reader failed.
pub fn latest_version(table: Table, opened: Result<Snapshot, Error>) -> (response: Response)
    ensures
        match opened {
            Ok(snapshot) => response@ == version_view(snapshot@),
            Err(_) => response@ == failure_view(Error::UpstreamSnapshot),
        },
        response.status == 200 ==> opened is Ok && carries_version(
            response@,
            opened->Ok_0.version as int,
        ),
{
    let mut table = table;
    match table.load_delta(opened) {
        Ok(()) => {},
        Err(e) => {
            return failure(e);
        },
    }
    match table.delta_version() {
        Ok(version) => versioned(version, String::new()),
        Err(e) => failure(e),
    }
}

/// Answers a request for the metadata of a table that was found, given
/// what the reader made of its location: 200 with the version in the header
/// and the protocol and metadata lines in the body, or 500 where the reader
/// failed.
pub fn table_metadata(table: Table, opened: Result<Snapshot, Error>) -> (response: Response)
    requires
        opened matches Ok(snapshot) ==> snapshot@.wf(),
    ensures
        match opened {
            Ok(snapshot) => response@ == metadata_view(snapshot@),
            Err(_) => response@ == failure_view(Error::UpstreamSnapshot),
        },
        response.status == 200 ==> opened is Ok && carries_version(
            response@,
            opened->Ok_0.version as int,
        ),
{
    let mut table = table;
    match table.load_delta(opened) {
        Ok(()) => {},
        Err(e) => {
            return failure(e);
        },
    }
    let metadata = match table.metadata() {
        Ok(metadata) => metadata,
        Err(e) => {
            return failure(e);
        },
    };
    let protocol = match table.protocol() {
        Ok(protocol) => protocol,
        Err(e) => {
            return failure(e);
        },
    };
    let version = match table.delta_version() {
        Ok(version) => version,
        Err(e) => {
            return failure(e);
        },
    };
    let mut lines: Vec<String> = Vec::new();
    lines.push(protocol_line(&protocol));
    lines.push(metadata_line(&metadata));
    proof {
        let snapshot = opened->Ok_0@;
        assert(texts(lines@) =~= seq![
            protocol_line_text(snapshot.min_reader_version),
            metadata_line_text(snapshot.metadata),
        ]);
    }
    versioned(version, join(&lines, "\n"))
}

/// Answers a query of a table that was found, given what the reader made of
/// its location. The files are signed for the given region with the given
/// credentials. 200 with the version in the header and the protocol line,
/// the metadata line and the file lines in the body; 500 where the reader
/// failed or a file could not be signed.
pub fn query(
    table: Table,
    opened: Result<Snapshot, Error>,
    region: &rusoto_core::Region,
    credentials: &rusoto_credential::AwsCredentials,
) -> (response: Response)
    requires
        opened matches Ok(snapshot) ==> snapshot@.wf(),
    ensures
        match opened {
            Ok(snapshot) => query_answer(snapshot@, response@),
            Err(_) => response@ == failure_view(Error::UpstreamSnapshot),
        },
        response.status == 200 ==> opened is Ok && carries_version(
            response@,
            opened->Ok_0.version as int,
        ),
{
    let mut table = table;
    match table.load_delta(opened) {
        Ok(()) => {},
        Err(e) => {
            return failure(e);
        },
    }
    let metadata = match table.metadata() {
        Ok(metadata) => metadata,
        Err(e) => {
            return failure(e);
        },
    };
    let protocol = match table.protocol() {
        Ok(protocol) => protocol,
        Err(e) => {
            return failure(e);
        },
    };
    let mut urls = match table.urls(region, credentials) {
        Ok(urls) => urls,
        Err(e) => {
            return failure(e);
        },
    };
    let version = match table.delta_version() {
        Ok(version) => version,
        Err(e) => {
            return failure(e);
        },
    };
    let ghost signed = urls;
    let mut lines: Vec<String> = Vec::new();
    lines.push(protocol_line(&protocol));
    lines.push(metadata_line(&metadata));
    lines.append(&mut urls);
    proof {
        let snapshot = opened->Ok_0@;
        assert(texts(lines@) =~= seq![
            protocol_line_text(snapshot.min_reader_version),
            metadata_line_text(snapshot.metadata),
        ] + texts(signed@));
        assert(file_lines_outcome(snapshot, Ok(signed)));
    }
    versioned(version, join(&lines, "\n"))
}

} // verus!

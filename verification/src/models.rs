//! The entities of the catalog and the table handle that requests work on.

use vstd::prelude::*;
use vstd::string::*;
use crate::error::Error;
use crate::file_id::{file_id, id_from_file};
use crate::sign::{presigned_get_url, s3_location, s3_location_of, URL_LIFETIME_SECS};
use crate::snapshot::{DataFile, DataFileView, Metadata, Protocol, Snapshot, SnapshotView};
use crate::text::{decimal, decimal_text};
use crate::wire::{file_line, file_line_text};

verus! {

/// A named group of schemas, the unit offered to a client.
#[derive(Debug, PartialEq, Eq)]
pub struct Share {
    pub id: u128,
    pub name: String,
    /// Time of creation, in seconds since the Unix epoch.
    pub created_at: i64,
}

impl Clone for Share {
    fn clone(&self) -> (copy: Self)
        ensures
            copy == *self,
    {
        Share { id: self.id, name: self.name.clone(), created_at: self.created_at }
    }
}

/// A named group of tables within a share.
#[derive(Debug, PartialEq, Eq)]
pub struct Schema {
    pub id: u128,
    pub name: String,
    /// The share that owns this schema.
    pub share_id: u128,
    /// The name of the owning share.
    pub share_name: String,
    pub created_at: i64,
}

impl Clone for Schema {
    fn clone(&self) -> (copy: Self)
        ensures
            copy == *self,
    {
        Schema {
            id: self.id,
            name: self.name.clone(),
            share_id: self.share_id,
            share_name: self.share_name.clone(),
            created_at: self.created_at,
        }
    }
}

/// A table as the catalog records it.
#[derive(Debug, PartialEq, Eq)]
pub struct PrimitiveTable {
    pub id: u128,
    pub name: String,
    /// Where the table's data lives; the only handle given to the reader.
    pub location: String,
    /// The schema that owns this table.
    pub schema_id: u128,
    pub created_at: i64,
}

impl Clone for PrimitiveTable {
    fn clone(&self) -> (copy: Self)
        ensures
            copy == *self,
    {
        PrimitiveTable {
            id: self.id,
            name: self.name.clone(),
            location: self.location.clone(),
            schema_id: self.schema_id,
            created_at: self.created_at,
        }
    }
}

/// A bearer credential that scopes access to a set of tables.
#[derive(Debug, PartialEq, Eq)]
pub struct Token {
    pub id: u128,
    pub name: String,
    /// The secret that a client presents.
    pub token: String,
    /// The moment from which the token is no longer valid.
    pub expires_at: i64,
    pub created_at: i64,
}

impl Clone for Token {
    fn clone(&self) -> (copy: Self)
        ensures
            copy == *self,
    {
        Token {
            id: self.id,
            name: self.name.clone(),
            token: self.token.clone(),
            expires_at: self.expires_at,
            created_at: self.created_at,
        }
    }
}

/// Makes one table visible under one token.
#[derive(Clone, Copy, Debug, PartialEq, Eq, Structural)]
pub struct Grant {
    pub token_id: u128,
    pub table_id: u128,
}

/// A table together with its schema and, once loaded, its snapshot.
#[derive(Debug, PartialEq, Eq)]
pub struct Table {
    pub inner: PrimitiveTable,
    pub schema: Schema,
    pub delta_table: Option<Snapshot>,
}

/// The location of a file: the root of its table, a `/`, and its path.
pub open spec fn file_uri(table_uri: Seq<char>, path: Seq<char>) -> Seq<char> {
    table_uri + "/"@ + path
}

/// Whether a file of a table can be signed: its location names an object.
pub open spec fn signable(table_uri: Seq<char>, file: DataFileView) -> bool {
    s3_location_of(file_uri(table_uri, file.path)) is Some
}

/// Whether `line` is the line of `file` under some signed URL, which is
/// never empty.
pub open spec fn is_file_line(line: Seq<char>, table_uri: Seq<char>, file: DataFileView) -> bool {
    exists|url: Seq<char>|
        url.len() > 0 && #[trigger] file_line_text(
            url,
            file_id(file_uri(table_uri, file.path)),
            file,
        ) == line
}

/// What preparing the signing of one file ends in: the bucket and the key
/// of the object at the file's location, to be signed for the fixed
/// lifetime of a URL, or `UpstreamSigning` where the location is not an
/// object in S3.
pub open spec fn signing_prepared(
    table_uri: Seq<char>,
    file: DataFileView,
    request: Result<(String, String, u64), Error>,
) -> bool {
    match request {
        Ok(request) => s3_location_of(file_uri(table_uri, file.path)) == Some(
            (request.0@, request.1@),
        ) && request.2 == URL_LIFETIME_SECS,
        Err(e) => e == Error::UpstreamSigning && s3_location_of(file_uri(table_uri, file.path))
            is None,
    }
}

/// Writes the location of a file: the root of its table, a `/`, and its
/// path.
pub fn location_of(table_uri: &str, file: &DataFile) -> (location: String)
    ensures
        location@ == file_uri(table_uri@, file@.path),
{
    let mut location = String::from_str(table_uri);
    location.append("/");
    location.append(file.path.as_str());
    location
}

/// Writes the line of one file of a table, given the URL that was signed
/// for it: the line carries that URL and the id read off the file's
/// location.
pub fn signed_line(url: &str, table_uri: &str, file: &DataFile) -> (line: String)
    requires
        file@.wf(),
    ensures
        line@ == file_line_text(url@, file_id(file_uri(table_uri@, file@.path)), file@),
{
    let id = id_from_file(location_of(table_uri, file).as_str());
    file_line(url, &id, file)
}

/// Prepares the signing of one file: finds the bucket and the key of the
/// object at the file's location and sets the lifetime of the URL.
pub fn signing_request(table_uri: &str, file: &DataFile) -> (request: Result<
    (String, String, u64),
    Error,
>)
    ensures
        signing_prepared(table_uri@, file@, request),
{
    let location = location_of(table_uri, file);
    match s3_location(location.as_str()) {
        Ok(object) => Ok((object.0, object.1, URL_LIFETIME_SECS)),
        Err(_) => Err(Error::UpstreamSigning),
    }
}

impl Table {
    /// The name of the table.
    pub fn name(&self) -> (name: &str)
        ensures
            name@ == self.inner.name@,
    {
        self.inner.name.as_str()
    }

    /// The name of the schema that owns the table.
    pub fn schema(&self) -> (name: &str)
        ensures
            name@ == self.schema.name@,
    {
        self.schema.name.as_str()
    }

    /// The name of the share that owns the table's schema.
    pub fn share(&self) -> (name: &str)
        ensures
            name@ == self.schema.share_name@,
    {
        self.schema.share_name.as_str()
    }

    /// Takes in what the reader found at the table's location. A snapshot is
    /// kept for the accessors below; a failure of the reader is reported and
    /// leaves the table as it was.
    pub fn load_delta(&mut self, opened: Result<Snapshot, Error>) -> (done: Result<(), Error>)
        ensures
            final(self).inner == old(self).inner,
            final(self).schema == old(self).schema,
            match opened {
                Ok(snapshot) => done is Ok && final(self).delta_table == Some(snapshot),
                Err(_) => {
                    &&& done == Err::<(), Error>(Error::UpstreamSnapshot)
                    &&& final(self).delta_table == old(self).delta_table
                },
            },
    {
        match opened {
            Ok(snapshot) => {
                self.delta_table = Some(snapshot);
                Ok(())
            },
            Err(_) => Err(Error::UpstreamSnapshot),
        }
    }

    /// The version of the loaded snapshot, as a decimal numeral.
    pub fn delta_version(&mut self) -> (version: Result<String, Error>)
        ensures
            *final(self) == *old(self),
            match old(self).delta_table {
                Some(snapshot) => version is Ok && version->Ok_0@ == decimal(
                    snapshot.version as int,
                ),
                None => version == Err::<String, Error>(Error::NotATable),
            },
    {
        match &self.delta_table {
            Some(snapshot) => Ok(decimal_text(snapshot.version)),
            None => Err(Error::NotATable),
        }
    }

    /// The compatibility marker of the loaded snapshot.
    pub fn protocol(&mut self) -> (protocol: Result<Protocol, Error>)
        ensures
            *final(self) == *old(self),
            match old(self).delta_table {
                Some(snapshot) => protocol == Ok::<Protocol, Error>(
                    Protocol { min_reader_version: snapshot.min_reader_version },
                ),
                None => protocol == Err::<Protocol, Error>(Error::NotATable),
            },
    {
        match &self.delta_table {
            Some(snapshot) => Ok(Protocol { min_reader_version: snapshot.min_reader_version }),
            None => Err(Error::NotATable),
        }
    }

    /// The metadata of the loaded snapshot.
    pub fn metadata(&mut self) -> (metadata: Result<Metadata, Error>)
        ensures
            *final(self) == *old(self),
            match old(self).delta_table {
                Some(snapshot) => metadata is Ok && metadata->Ok_0@ == snapshot.metadata@,
                None => metadata is Err && metadata->Err_0 == Error::NotATable,
            },
    {
        match &self.delta_table {
            Some(snapshot) => Ok(snapshot.metadata.duplicate()),
            None => Err(Error::NotATable),
        }
    }

    /// One line per data file of the loaded snapshot, in the snapshot's
    /// order, each with a freshly signed URL for the file: `file_lines` of
    /// the snapshot. A table that was not loaded gives `NotATable`.
    pub fn urls(
        &mut self,
        region: &rusoto_core::Region,
        credentials: &rusoto_credential::AwsCredentials,
    ) -> (lines: Result<Vec<String>, Error>)
        requires
            old(self).delta_table matches Some(snapshot) ==> snapshot@.wf(),
        ensures
            *final(self) == *old(self),
            match old(self).delta_table {
                Some(snapshot) => file_lines_outcome(snapshot@, lines),
                None => lines is Err && lines->Err_0 == Error::NotATable,
            },
    {
        match &self.delta_table {
            None => Err(Error::NotATable),
            Some(snapshot) => file_lines(snapshot, region, credentials),
        }
    }
}

/// What signing the files of a snapshot may end in. Lines come out only if
/// every file can be signed, and then there is one per file, in order, each
/// the line of its file under some URL; otherwise the outcome is
/// `UpstreamSigning`.
pub open spec fn file_lines_outcome(snapshot: SnapshotView, lines: Result<Vec<String>, Error>) -> bool {
    match lines {
        Ok(lines) => {
            &&& lines.len() == snapshot.files.len()
            &&& forall|i: int|
                0 <= i < snapshot.files.len() ==> signable(
                    snapshot.table_uri,
                    #[trigger] snapshot.files[i],
                )
            &&& forall|i: int|
                0 <= i < lines.len() ==> is_file_line(
                    #[trigger] lines[i]@,
                    snapshot.table_uri,
                    snapshot.files[i],
                )
        },
        Err(e) => {
            &&& e == Error::UpstreamSigning
            &&& exists|i: int|
                0 <= i < snapshot.files.len() && !signable(
                    snapshot.table_uri,
                    #[trigger] snapshot.files[i],
                )
        },
    }
}

/// Signs the files of a snapshot one after another, in the snapshot's order,
/// and writes the line of each. The first file whose location is not an
/// object in S3 ends the call, and no line is handed out.
pub fn file_lines(
    snapshot: &Snapshot,
    region: &rusoto_core::Region,
    credentials: &rusoto_credential::AwsCredentials,
) -> (lines: Result<Vec<String>, Error>)
    requires
        snapshot@.wf(),
    ensures
        file_lines_outcome(snapshot@, lines),
{
    let mut lines: Vec<String> = Vec::new();
    let mut i: usize = 0;
    while i < snapshot.files.len()
        invariant
            i <= snapshot.files.len(),
            lines.len() == i,
            snapshot@.wf(),
            snapshot@.files.len() == snapshot.files.len(),
            forall|j: int|
                0 <= j < i ==> signable(snapshot@.table_uri, #[trigger] snapshot@.files[j]),
            forall|j: int|
                0 <= j < i ==> is_file_line(
                    #[trigger] lines[j]@,
                    snapshot@.table_uri,
                    snapshot@.files[j],
                ),
        decreases snapshot.files.len() - i,
    {
        let entry = &snapshot.files[i];
        assert(snapshot@.files[i as int] == entry@);
        let request = match signing_request(snapshot.table_uri.as_str(), entry) {
            Ok(request) => request,
            Err(e) => {
                assert(!signable(snapshot@.table_uri, snapshot@.files[i as int]));
                return Err(e);
            },
        };
        let url = presigned_get_url(
            request.0.as_str(),
            request.1.as_str(),
            region,
            credentials,
            request.2,
        );
        let line = signed_line(url.as_str(), snapshot.table_uri.as_str(), entry);
        assert(is_file_line(line@, snapshot@.table_uri, entry@));
        lines.push(line);
        i = i + 1;
    }
    Ok(lines)
}

} // verus!

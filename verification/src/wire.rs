//! The lines of a table response. Each line is one JSON object; a response
//! body is a sequence of such lines separated by line feeds.

use vstd::prelude::*;
use vstd::string::*;
use crate::json::{
    json_string, json_string_text, optional_string, optional_string_text, string_array,
    string_array_text, string_map, string_map_text,
};
use crate::snapshot::{DataFile, DataFileView, Format, FormatView, Metadata, MetadataView, Protocol};
use crate::text::{decimal, decimal_text};

verus! {

/// The protocol line: `{"protocol":{"minReaderVersion":N}}`.
pub open spec fn protocol_line_text(min_reader_version: int) -> Seq<char> {
    "{\"protocol\":{\"minReaderVersion\":"@ + decimal(min_reader_version) + "}}"@
}

/// The format descriptor: `{"provider":P,"options":O}`, with `null` for
/// absent options.
pub open spec fn format_text(format: FormatView) -> Seq<char> {
    "{\"provider\":"@ + json_string_text(format.provider) + ",\"options\":"@ + (match format.options {
        Some(o) => string_map_text(o),
        None => "null"@,
    }) + "}"@
}

/// The metadata line:
/// `{"metaData":{"id":I,"format":F,"schemaString":S,"partitionColumns":[..]}}`.
pub open spec fn metadata_line_text(metadata: MetadataView) -> Seq<char> {
    "{\"metaData\":{\"id\":"@ + json_string_text(metadata.id) + ",\"format\":"@ + format_text(
        metadata.format,
    ) + ",\"schemaString\":"@ + json_string_text(metadata.schema_string)
        + ",\"partitionColumns\":"@ + string_array_text(metadata.partition_columns) + "}}"@
}

/// The statistics of a file as they go on the wire: the empty text where
/// the table records none.
pub open spec fn stats_or_empty(stats: Option<Seq<char>>) -> Seq<char> {
    match stats {
        Some(s) => s,
        None => ""@,
    }
}

/// A file line:
/// `{"file":{"url":U,"id":I,"partitionValues":{..},"size":N,"stats":S}}`,
/// with `null` for an absent id.
pub open spec fn file_line_text(url: Seq<char>, id: Option<Seq<char>>, file: DataFileView) -> Seq<
    char,
> {
    "{\"file\":{\"url\":"@ + json_string_text(url) + ",\"id\":"@ + optional_string_text(id)
        + ",\"partitionValues\":"@ + string_map_text(file.partition_values) + ",\"size\":"@
        + decimal(file.size) + ",\"stats\":"@ + json_string_text(stats_or_empty(file.stats))
        + "}}"@
}

/// Writes the protocol line of a snapshot.
pub fn protocol_line(protocol: &Protocol) -> (line: String)
    ensures
        line@ == protocol_line_text(protocol.min_reader_version as int),
{
    let mut line = String::from_str("{\"protocol\":{\"minReaderVersion\":");
    line.append(decimal_text(protocol.min_reader_version as i64).as_str());
    line.append("}}");
    line
}

/// Writes a format descriptor.
pub fn format_json(format: &Format) -> (out: String)
    requires
        format@.wf(),
    ensures
        out@ == format_text(format@),
{
    let mut out = String::from_str("{\"provider\":");
    out.append(json_string(format.provider.as_str()).as_str());
    out.append(",\"options\":");
    match &format.options {
        Some(o) => {
            out.append(string_map(o).as_str());
        },
        None => {
            out.append("null");
        },
    }
    out.append("}");
    out
}

/// Writes the metadata line of a snapshot.
pub fn metadata_line(metadata: &Metadata) -> (line: String)
    requires
        metadata@.wf(),
    ensures
        line@ == metadata_line_text(metadata@),
{
    let mut line = String::from_str("{\"metaData\":{\"id\":");
    line.append(json_string(metadata.id.as_str()).as_str());
    line.append(",\"format\":");
    line.append(format_json(&metadata.format).as_str());
    line.append(",\"schemaString\":");
    line.append(json_string(metadata.schema_string.as_str()).as_str());
    line.append(",\"partitionColumns\":");
    line.append(string_array(&metadata.partition_columns).as_str());
    line.append("}}");
    line
}

/// Writes the line of one data file, given its signed URL and its id.
pub fn file_line(url: &str, id: &Option<String>, file: &DataFile) -> (line: String)
    requires
        file@.wf(),
    ensures
        line@ == file_line_text(
            url@,
            match *id {
                Some(i) => Some(i@),
                None => None,
            },
            file@,
        ),
{
    let mut line = String::from_str("{\"file\":{\"url\":");
    line.append(json_string(url).as_str());
    line.append(",\"id\":");
    line.append(optional_string(id).as_str());
    line.append(",\"partitionValues\":");
    line.append(string_map(&file.partition_values).as_str());
    line.append(",\"size\":");
    line.append(decimal_text(file.size).as_str());
    line.append(",\"stats\":");
    match &file.stats {
        Some(s) => {
            line.append(json_string(s.as_str()).as_str());
        },
        None => {
            line.append(json_string("").as_str());
        },
    }
    line.append("}}");
    line
}

} // verus!

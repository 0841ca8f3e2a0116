//! The snapshot of a table as the table-format reader reports it: version,
//! compatibility marker, metadata and the list of data files.

use vstd::prelude::*;
use crate::json::{ascending, keys_ascend, text_pairs, texts};

verus! {

/// The data format of a table's files.
#[derive(Debug, PartialEq, Eq)]
pub struct Format {
    /// Name of the encoding of the files.
    pub provider: String,
    /// Options of the format, if the table states any: a map, written in
    /// the order of its keys.
    pub options: Option<Vec<(String, String)>>,
}

/// What a `Format` holds, as plain texts.
pub struct FormatView {
    pub provider: Seq<char>,
    pub options: Option<Seq<(Seq<char>, Seq<char>)>>,
}

impl FormatView {
    /// Whether the options, where there are any, are a map written in the
    /// order of its keys.
    pub open spec fn wf(self) -> bool {
        self.options matches Some(options) ==> keys_ascend(options)
    }
}

impl View for Format {
    type V = FormatView;

    open spec fn view(&self) -> FormatView {
        FormatView {
            provider: self.provider@,
            options: match self.options {
                Some(o) => Some(text_pairs(o@)),
                None => None,
            },
        }
    }
}

/// The descriptor of a table: identifier, format, serialized schema and
/// partition columns.
#[derive(Debug, PartialEq, Eq)]
pub struct Metadata {
    pub id: String,
    pub format: Format,
    pub schema_string: String,
    pub partition_columns: Vec<String>,
}

/// What a `Metadata` holds, as plain texts.
pub struct MetadataView {
    pub id: Seq<char>,
    pub format: FormatView,
    pub schema_string: Seq<char>,
    pub partition_columns: Seq<Seq<char>>,
}

impl MetadataView {
    /// Whether the format is well-formed.
    pub open spec fn wf(self) -> bool {
        self.format.wf()
    }
}

impl View for Metadata {
    type V = MetadataView;

    open spec fn view(&self) -> MetadataView {
        MetadataView {
            id: self.id@,
            format: self.format@,
            schema_string: self.schema_string@,
            partition_columns: texts(self.partition_columns@),
        }
    }
}

/// The compatibility marker of a snapshot.
#[derive(Clone, Copy, Debug, PartialEq, Eq, Structural)]
pub struct Protocol {
    pub min_reader_version: i32,
}

/// One data file of a snapshot.
#[derive(Debug, PartialEq, Eq)]
pub struct DataFile {
    /// Path of the file, relative to the root of the table.
    pub path: String,
    /// Partition column names with this file's values: a map, written in
    /// the order of its keys.
    pub partition_values: Vec<(String, String)>,
    /// Size of the file in bytes.
    pub size: i64,
    /// Statistics of the file, if the table records any.
    pub stats: Option<String>,
}

/// What a `DataFile` holds, as plain values.
pub struct DataFileView {
    pub path: Seq<char>,
    pub partition_values: Seq<(Seq<char>, Seq<char>)>,
    pub size: int,
    pub stats: Option<Seq<char>>,
}

impl DataFileView {
    /// Whether the partition values are a map written in the order of its
    /// keys.
    pub open spec fn wf(self) -> bool {
        keys_ascend(self.partition_values)
    }
}

impl View for DataFile {
    type V = DataFileView;

    open spec fn view(&self) -> DataFileView {
        DataFileView {
            path: self.path@,
            partition_values: text_pairs(self.partition_values@),
            size: self.size as int,
            stats: match self.stats {
                Some(s) => Some(s@),
                None => None,
            },
        }
    }
}

/// The current state of a table.
#[derive(Debug, PartialEq, Eq)]
pub struct Snapshot {
    /// Root of the table, the prefix of every file's location.
    pub table_uri: String,
    /// Version of the table; it grows with every change.
    pub version: i64,
    /// Compatibility marker for readers.
    pub min_reader_version: i32,
    pub metadata: Metadata,
    /// The data files, in the order the reader lists them.
    pub files: Vec<DataFile>,
}

/// What a `Snapshot` holds, as plain values.
pub struct SnapshotView {
    pub table_uri: Seq<char>,
    pub version: int,
    pub min_reader_version: int,
    pub metadata: MetadataView,
    pub files: Seq<DataFileView>,
}

impl SnapshotView {
    /// Whether the metadata and every file are well-formed.
    pub open spec fn wf(self) -> bool {
        &&& self.metadata.wf()
        &&& forall|i: int| 0 <= i < self.files.len() ==> (#[trigger] self.files[i]).wf()
    }
}

impl View for Snapshot {
    type V = SnapshotView;

    open spec fn view(&self) -> SnapshotView {
        SnapshotView {
            table_uri: self.table_uri@,
            version: self.version as int,
            min_reader_version: self.min_reader_version as int,
            metadata: self.metadata@,
            files: self.files@.map_values(|f: DataFile| f@),
        }
    }
}

/// A copy of a list of strings.
pub fn clone_texts(items: &Vec<String>) -> (out: Vec<String>)
    ensures
        texts(out@) == texts(items@),
{
    let mut out: Vec<String> = Vec::new();
    let mut i: usize = 0;
    while i < items.len()
        invariant
            i <= items.len(),
            texts(out@) =~= texts(items@).take(i as int),
        decreases items.len() - i,
    {
        let item = items[i].clone();
        assert(texts(out@.push(item)) =~= texts(out@).push(item@));
        assert(texts(items@).take(i + 1) =~= texts(items@).take(i as int).push(item@));
        out.push(item);
        i = i + 1;
    }
    assert(texts(items@).take(items.len() as int) =~= texts(items@));
    out
}

/// A copy of a list of string pairs.
pub fn clone_pairs(pairs: &Vec<(String, String)>) -> (out: Vec<(String, String)>)
    ensures
        text_pairs(out@) == text_pairs(pairs@),
{
    let mut out: Vec<(String, String)> = Vec::new();
    let mut i: usize = 0;
    while i < pairs.len()
        invariant
            i <= pairs.len(),
            text_pairs(out@) =~= text_pairs(pairs@).take(i as int),
        decreases pairs.len() - i,
    {
        let pair = (pairs[i].0.clone(), pairs[i].1.clone());
        assert(text_pairs(out@.push(pair)) =~= text_pairs(out@).push((pair.0@, pair.1@)));
        assert(text_pairs(pairs@).take(i + 1) =~= text_pairs(pairs@).take(i as int).push(
            (pair.0@, pair.1@),
        ));
        out.push(pair);
        i = i + 1;
    }
    assert(text_pairs(pairs@).take(pairs.len() as int) =~= text_pairs(pairs@));
    out
}

impl Format {
    /// Decides whether the format is well-formed.
    pub fn is_well_formed(&self) -> (valid: bool)
        ensures
            valid == self@.wf(),
    {
        match &self.options {
            Some(options) => ascending(options),
            None => true,
        }
    }

    /// A copy with the same contents.
    pub fn duplicate(&self) -> (out: Format)
        ensures
            out@ == self@,
    {
        Format {
            provider: self.provider.clone(),
            options: match &self.options {
                Some(o) => Some(clone_pairs(o)),
                None => None,
            },
        }
    }
}

impl Metadata {
    /// A copy with the same contents.
    pub fn duplicate(&self) -> (out: Metadata)
        ensures
            out@ == self@,
    {
        Metadata {
            id: self.id.clone(),
            format: self.format.duplicate(),
            schema_string: self.schema_string.clone(),
            partition_columns: clone_texts(&self.partition_columns),
        }
    }
}

impl DataFile {
    /// Decides whether the file is well-formed.
    pub fn is_well_formed(&self) -> (valid: bool)
        ensures
            valid == self@.wf(),
    {
        ascending(&self.partition_values)
    }
}

impl Snapshot {
    /// Decides whether the snapshot is well-formed: what the one who took
    /// it tests before handing it on.
    pub fn is_well_formed(&self) -> (valid: bool)
        ensures
            valid == self@.wf(),
    {
        if !self.metadata.format.is_well_formed() {
            return false;
        }
        let mut i: usize = 0;
        while i < self.files.len()
            invariant
                i <= self.files.len(),
                self@.metadata.wf(),
                forall|k: int| 0 <= k < i ==> (#[trigger] self@.files[k]).wf(),
            decreases self.files.len() - i,
        {
            if !self.files[i].is_well_formed() {
                assert(!self@.files[i as int].wf());
                return false;
            }
            i = i + 1;
        }
        true
    }
}

} // verus!

//! Access-controlled, read-only views of externally stored tables.
//!
//! A catalog holds shares, schemas and tables, and tokens with the tables
//! they are granted. A client presents a token, lists what the token sees,
//! and asks for the current snapshot of a table: its version, its metadata,
//! and a signed URL for each of its data files.
//!
//! - `catalog`, `creation`, `queries`, `visibility`: the catalog and its
//!   rules, adding rows, listings and lookups, and what the rules of
//!   visibility add up to.
//! - `state`: who may use the service.
//! - `snapshot`, `file_id`, `sign`, `wire`: a table's snapshot, the ids and
//!   signed URLs of its files, and the lines that describe it.
//! - `routes`: the answers to requests.
//! - `json`, `text`, `ids`, `error`, `config`, `models`: the values that
//!   the rest works with.

pub mod catalog;
pub mod config;
pub mod creation;
pub mod error;
pub mod file_id;
pub mod ids;
pub mod json;
pub mod models;
pub mod queries;
pub mod routes;
pub mod sign;
pub mod snapshot;
pub mod state;
pub mod text;
pub mod visibility;
pub mod wire;

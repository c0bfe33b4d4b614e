//! The blob tables: file metadata and NZB documents stored by id.

use vstd::prelude::*;

use crate::error::DavError;
use crate::store::{uuid_text, uuid_to_string};
use crate::text::{push_str, str_chars, string_from_chars};

verus! {

/// Stores and retrieves binary blobs (file metadata, NZB documents) in the
/// tables `blobs` and `nzb_blobs`, whose rows are `(id, data)`.
#[derive(Debug, Clone, Copy)]
pub struct BlobStore;

fn statement(before: &str, table: &str, after: &str) -> (r: String)
    ensures
        r@ == before@ + table@ + after@,
{
    let mut c = str_chars(before);
    push_str(&mut c, table);
    push_str(&mut c, after);
    string_from_chars(c.as_slice())
}

impl BlobStore {
    /// The table of file metadata blobs.
    pub fn file_blob_table() -> (r: &'static str)
        ensures
            r@ == "blobs"@,
    {
        "blobs"
    }

    /// The table of NZB documents.
    pub fn nzb_blob_table() -> (r: &'static str)
        ensures
            r@ == "nzb_blobs"@,
    {
        "nzb_blobs"
    }

    /// The statement that stores a blob, replacing one with the same id;
    /// its parameters are the id's text and the data.
    pub fn put_sql(table: &str) -> (r: String)
        ensures
            r@ == "INSERT OR REPLACE INTO "@ + table@ + " (id, data) VALUES (?1, ?2)"@,
    {
        statement("INSERT OR REPLACE INTO ", table, " (id, data) VALUES (?1, ?2)")
    }

    /// The query that reads a blob by the text of its id.
    pub fn get_sql(table: &str) -> (r: String)
        ensures
            r@ == "SELECT data FROM "@ + table@ + " WHERE id = ?1"@,
    {
        statement("SELECT data FROM ", table, " WHERE id = ?1")
    }

    /// The statement that removes a blob by the text of its id.
    pub fn delete_sql(table: &str) -> (r: String)
        ensures
            r@ == "DELETE FROM "@ + table@ + " WHERE id = ?1"@,
    {
        statement("DELETE FROM ", table, " WHERE id = ?1")
    }

    /// The error of a blob that no row holds.
    pub fn missing_blob_error(id: u128) -> (r: DavError)
        ensures
            r matches DavError::BlobNotFound(m) && m@ == uuid_text(id),
    {
        DavError::BlobNotFound(uuid_to_string(id))
    }
}

} // verus!

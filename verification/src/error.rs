//! Error types of the storage layer and of the WebDAV server.

use vstd::prelude::*;

use crate::text::{push_str, str_chars, string_from_chars};

verus! {

/// An error of the storage layer.
#[derive(Debug)]
pub enum DavError {
    /// A failure reported by the database, with its text.
    Database(String),
    BlobNotFound(String),
    Serialization(String),
    ItemNotFound(String),
    DuplicateItem(String),
    Other(String),
}

/// An error of the WebDAV server.
#[derive(Debug)]
pub enum DavServerError {
    NotFound(String),
    MethodNotAllowed(String),
    Conflict(String),
    PreconditionFailed(String),
    Forbidden(String),
    InvalidRange(String),
    /// A failure of the streaming layer, with its text.
    Stream(String),
    Core(DavError),
    Other(String),
}

fn prefixed(prefix: &str, m: &String) -> (r: String)
    ensures
        r@ == prefix@ + m@,
{
    let mut c = str_chars(prefix);
    push_str(&mut c, m.as_str());
    string_from_chars(c.as_slice())
}

impl DavError {
    /// The text of the error, as it is displayed.
    pub open spec fn text(&self) -> Seq<char> {
        match self {
            DavError::Database(m) => "database error: "@ + m@,
            DavError::BlobNotFound(m) => "blob not found: "@ + m@,
            DavError::Serialization(m) => "serialization error: "@ + m@,
            DavError::ItemNotFound(m) => "item not found: "@ + m@,
            DavError::DuplicateItem(m) => "duplicate item: "@ + m@,
            DavError::Other(m) => m@,
        }
    }

    /// The text of the error.
    pub fn message(&self) -> (r: String)
        ensures
            r@ == self.text(),
    {
        match self {
            DavError::Database(m) => prefixed("database error: ", m),
            DavError::BlobNotFound(m) => prefixed("blob not found: ", m),
            DavError::Serialization(m) => prefixed("serialization error: ", m),
            DavError::ItemNotFound(m) => prefixed("item not found: ", m),
            DavError::DuplicateItem(m) => prefixed("duplicate item: ", m),
            DavError::Other(m) => m.clone(),
        }
    }
}

impl DavServerError {
    /// The text of the error, as it is displayed.
    pub open spec fn text(&self) -> Seq<char> {
        match self {
            DavServerError::NotFound(m) => "not found: "@ + m@,
            DavServerError::MethodNotAllowed(m) => "method not allowed: "@ + m@,
            DavServerError::Conflict(m) => "conflict: "@ + m@,
            DavServerError::PreconditionFailed(m) => "precondition failed: "@ + m@,
            DavServerError::Forbidden(m) => "forbidden: "@ + m@,
            DavServerError::InvalidRange(m) => "invalid range: "@ + m@,
            DavServerError::Stream(m) => m@,
            DavServerError::Core(e) => e.text(),
            DavServerError::Other(m) => m@,
        }
    }

    /// The text of the error.
    pub fn message(&self) -> (r: String)
        ensures
            r@ == self.text(),
    {
        match self {
            DavServerError::NotFound(m) => prefixed("not found: ", m),
            DavServerError::MethodNotAllowed(m) => prefixed("method not allowed: ", m),
            DavServerError::Conflict(m) => prefixed("conflict: ", m),
            DavServerError::PreconditionFailed(m) => prefixed("precondition failed: ", m),
            DavServerError::Forbidden(m) => prefixed("forbidden: ", m),
            DavServerError::InvalidRange(m) => prefixed("invalid range: ", m),
            DavServerError::Stream(m) => m.clone(),
            DavServerError::Core(e) => e.message(),
            DavServerError::Other(m) => m.clone(),
        }
    }

    /// The HTTP status and body text of the error's response: the errors of
    /// the WebDAV protocol carry their own text, the rest answer 500 with
    /// the error's full text.
    pub open spec fn status_spec(&self) -> (u16, Seq<char>) {
        match self {
            DavServerError::NotFound(m) => (404, m@),
            DavServerError::Conflict(m) => (409, m@),
            DavServerError::MethodNotAllowed(m) => (405, m@),
            DavServerError::PreconditionFailed(m) => (412, m@),
            DavServerError::Forbidden(m) => (403, m@),
            DavServerError::InvalidRange(m) => (416, m@),
            _ => (500, self.text()),
        }
    }

    /// The HTTP status and body text of the error's response.
    pub fn status(&self) -> (r: (u16, String))
        ensures
            r.0 == self.status_spec().0,
            r.1@ == self.status_spec().1,
    {
        match self {
            DavServerError::NotFound(m) => (404, m.clone()),
            DavServerError::Conflict(m) => (409, m.clone()),
            DavServerError::MethodNotAllowed(m) => (405, m.clone()),
            DavServerError::PreconditionFailed(m) => (412, m.clone()),
            DavServerError::Forbidden(m) => (403, m.clone()),
            DavServerError::InvalidRange(m) => (416, m.clone()),
            _ => (500, self.message()),
        }
    }
}

} // verus!

//! Error management.

use vstd::prelude::*;

verus! {

/// Error container.
///
/// Each failure of the search engine, the storage engine or a record's own
/// encoding is surfaced unchanged inside the variant of its origin.
#[derive(Debug)]
pub enum StoreError {
    /// The search engine failed: index I/O, schema, or query execution.
    Tantivy(tantivy::TantivyError),
    /// The text of a query is malformed.
    Query(tantivy::query::QueryParserError),
    /// The storage engine failed.
    Sled(sled::Error),
    /// A record could not be encoded or decoded.
    Bincode(bincode::Error),
    /// A builder option is missing or not valid.
    Config(String),
    /// Caller-supplied context.
    Custom(String),
}

/// Create a custom error.
pub fn custom(message: &str) -> (e: StoreError)
    ensures
        e matches StoreError::Custom(text) && text@ == message@,
{
    StoreError::Custom(message.to_string())
}

/// Create the error for a builder option that is not set or not valid.
pub fn misconfigured(option: &str) -> (e: StoreError)
    ensures
        e matches StoreError::Config(text) && text@ == option@,
{
    StoreError::Config(option.to_string())
}

} // verus!

//! Re-exports `tantivy` and `sled` for convenience, and declares the types
//! of theirs, and of `bincode`, that the library carries through unopened.

pub use sled;
pub use tantivy;

use vstd::prelude::*;

verus! {

/// `tantivy::TantivyError`, carried through as an opaque value.
#[verifier::external_type_specification]
#[verifier::external_body]
pub struct ExTantivyError(tantivy::TantivyError);

/// `tantivy::query::QueryParserError`, carried through as an opaque value.
#[verifier::external_type_specification]
#[verifier::external_body]
pub struct ExQueryParserError(tantivy::query::QueryParserError);

/// `sled::Error`, carried through as an opaque value.
#[verifier::external_type_specification]
#[verifier::external_body]
pub struct ExSledError(sled::Error);

/// `bincode::ErrorKind`, carried through as an opaque value.
#[verifier::external_type_specification]
#[verifier::external_body]
pub struct ExBincodeErrorKind(bincode::ErrorKind);

/// `sled::Db`: the handle of an open database.
#[verifier::external_type_specification]
#[verifier::external_body]
pub struct ExSledDb(sled::Db);

/// `sled::Tree`: the handle of one keyspace of a database.
#[verifier::external_type_specification]
#[verifier::external_body]
pub struct ExSledTree(sled::Tree);

/// `sled::Batch`: writes gathered to be applied together.
#[verifier::external_type_specification]
#[verifier::external_body]
pub struct ExSledBatch(sled::Batch);

/// `tantivy::Index`: the handle of an open search index.
#[verifier::external_type_specification]
#[verifier::external_body]
pub struct ExTantivyIndex(tantivy::Index);

/// `tantivy::schema::SchemaBuilder`: a schema while its fields are declared.
#[verifier::external_type_specification]
#[verifier::external_body]
pub struct ExSchemaBuilder(tantivy::schema::SchemaBuilder);

/// `tantivy::schema::Schema`: the fields of an index.
#[verifier::external_type_specification]
#[verifier::external_body]
pub struct ExSchema(tantivy::schema::Schema);

/// `tantivy::schema::Field`: the handle of one field of a schema.
#[verifier::external_type_specification]
#[verifier::external_body]
pub struct ExField(tantivy::schema::Field);

/// `tantivy::TantivyDocument`: the values of one document, by field.
#[verifier::external_type_specification]
#[verifier::external_body]
pub struct ExTantivyDocument(tantivy::TantivyDocument);

/// `tantivy::query::QueryParser`: turns the text of a query into a query.
#[verifier::external_type_specification]
#[verifier::external_body]
pub struct ExQueryParser(tantivy::query::QueryParser);

} // verus!

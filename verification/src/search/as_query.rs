//! Items that can be expressed as a query.

use crate::err::{misconfigured, StoreError};
use tantivy::query::{QueryParser, QueryParserError};
use tantivy::schema::Field;
use vstd::prelude::*;

verus! {

/// A query that the search engine can run. The engine's queries are values
/// of many types behind one of its traits, so the query is kept unopened.
#[verifier::external_body]
pub struct QueryContainer {
    pub inner: Box<dyn tantivy::query::Query>,
}

/// The number of a field within its schema.
pub uninterp spec fn field_number(field: Field) -> u32;

/// The number of fields of the schema that an index was made with.
pub uninterp spec fn index_field_count(index: tantivy::Index) -> nat;

/// The fields that a parser looks for a term in where the term names none,
/// in the order in which the parser was given them.
pub uninterp spec fn parser_default_fields(parser: QueryParser) -> Seq<Field>;

/// The number of fields of the schema that a parser was made with.
pub uninterp spec fn parser_field_count(parser: QueryParser) -> nat;

/// Whether a parser takes terms that stand side by side as terms that must
/// all match.
pub uninterp spec fn parser_requires_all(parser: QueryParser) -> bool;

/// Whether every field of `fields` is a field of a schema of `count`
/// fields: its number is below `count`.
pub open spec fn fields_fit(fields: Seq<Field>, count: nat) -> bool {
    forall|i: int| 0 <= i < fields.len() ==> field_number(#[trigger] fields[i]) < count
}

/// `tantivy::schema::Field::field_id`: the number of the field.
#[verifier::external_body]
pub(crate) fn field_id(field: &Field) -> (number: u32)
    ensures
        number == field_number(*field),
{
    field.field_id()
}

/// `tantivy::Index::schema`, then `Schema::num_fields`: the number of
/// fields of the schema of the index.
#[verifier::external_body]
pub(crate) fn index_fields_len(index: &tantivy::Index) -> (count: usize)
    ensures
        count == index_field_count(*index),
{
    index.schema().num_fields()
}

/// `tantivy::query::QueryParser::for_index`: the parser over the schema and
/// the tokenizers of `index`, with `default_search_fields` as the fields of
/// a term that names none. A new parser takes terms that stand side by side
/// as terms of which one must match.
#[verifier::external_body]
pub(crate) fn parser_for(index: &tantivy::Index, default_search_fields: &[Field]) -> (parser:
    QueryParser)
    ensures
        parser_default_fields(parser) == default_search_fields@,
        parser_field_count(parser) == index_field_count(*index),
        !parser_requires_all(parser),
{
    QueryParser::for_index(index, default_search_fields.to_vec())
}

/// `tantivy::query::QueryParser::set_conjunction_by_default`: terms that
/// stand side by side must from now on all match. The default fields and
/// the schema stay.
#[verifier::external_body]
pub(crate) fn parser_conjunction(parser: &mut QueryParser)
    ensures
        parser_default_fields(*final(parser)) == parser_default_fields(*old(parser)),
        parser_field_count(*final(parser)) == parser_field_count(*old(parser)),
        parser_requires_all(*final(parser)),
{
    parser.set_conjunction_by_default()
}

/// `tantivy::query::QueryParser::parse_query`: the query that `text` stands
/// for, or what is wrong with the text. The engine looks up every default
/// field in the schema for a term that names no field, and panics on one
/// that the schema does not have.
#[verifier::external_body]
pub(crate) fn parser_parse(parser: &QueryParser, text: &str) -> Result<
    QueryContainer,
    QueryParserError,
>
    requires
        fields_fit(parser_default_fields(*parser), parser_field_count(*parser)),
{
    parser.parse_query(text).map(|inner| QueryContainer { inner })
}

/// `tantivy::query::QueryClone::box_clone`: the same query once more.
#[verifier::external_body]
pub(crate) fn query_clone(query: &QueryContainer) -> QueryContainer {
    QueryContainer { inner: query.inner.box_clone() }
}

/// The parser that `as_query` uses for text: over `default_search_fields`,
/// with terms that stand side by side all required.
pub(crate) fn text_parser(index: &tantivy::Index, default_search_fields: &[Field]) -> (parser:
    QueryParser)
    ensures
        parser_default_fields(parser) == default_search_fields@,
        parser_field_count(parser) == index_field_count(*index),
        parser_requires_all(parser),
{
    let mut parser: QueryParser = parser_for(index, default_search_fields);
    parser_conjunction(&mut parser);
    parser
}

/// Whether every field of `fields` is a field of the schema of `index`.
pub fn fields_in_schema(index: &tantivy::Index, fields: &[Field]) -> (fit: bool)
    ensures
        fit == fields_fit(fields@, index_field_count(*index)),
{
    let count: usize = index_fields_len(index);
    let mut i: usize = 0;
    while i < fields.len()
        invariant
            i <= fields@.len(),
            count == index_field_count(*index),
            forall|k: int| 0 <= k < i ==> field_number(#[trigger] fields@[k]) < count,
        decreases fields@.len() - i,
    {
        let number: u32 = field_id(&fields[i]);
        if number as usize >= count {
            return false;
        }
        i += 1;
    }
    true
}

/// Whether `r` is what parsing the text of a query may come to, over the
/// schema of `index` and the default search fields `fields`: where one of
/// the fields is no field of the schema, the failure that says so, and
/// else a query or the failure of a malformed query.
pub open spec fn text_parsed(
    index: tantivy::Index,
    fields: Seq<Field>,
    r: Result<QueryContainer, StoreError>,
) -> bool {
    if fields_fit(fields, index_field_count(index)) {
        r matches Err(e) ==> e is Query
    } else {
        r matches Err(StoreError::Config(text)) && text@
            == "`default_search_fields` not in schema"@
    }
}

/// The query that `text` stands for, over the schema of `index` and the
/// default search fields `default_search_fields`.
pub fn parse_text(index: &tantivy::Index, default_search_fields: &[Field], text: &str) -> (r:
    Result<QueryContainer, StoreError>)
    ensures
        text_parsed(*index, default_search_fields@, r),
{
    if !fields_in_schema(index, default_search_fields) {
        return Err(misconfigured("`default_search_fields` not in schema"));
    }
    let parser: QueryParser = text_parser(index, default_search_fields);
    parsed(parser_parse(&parser, text))
}

/// What parsing the text of a query comes to: the query, or the failure as
/// a malformed query.
pub fn parsed(outcome: Result<QueryContainer, QueryParserError>) -> (r: Result<
    QueryContainer,
    StoreError,
>)
    ensures
        r == (match outcome {
            Ok(query) => Ok::<QueryContainer, StoreError>(query),
            Err(e) => Err(StoreError::Query(e)),
        }),
{
    match outcome {
        Ok(query) => Ok(query),
        Err(e) => Err(StoreError::Query(e)),
    }
}

/// Items that can be expressed as a query.
pub trait AsQuery {
    /// The query that the item stands for, over the schema of `index`, with
    /// `default_search_fields` as the fields of a term that names none.
    fn as_query(&self, index: &tantivy::Index, default_search_fields: &[Field]) -> Result<
        QueryContainer,
        StoreError,
    >;
}

impl AsQuery for str {
    /// The query that the text stands for. Fails where a default search
    /// field is no field of the schema, and else only where the text is
    /// malformed, and then as a malformed query.
    fn as_query(&self, index: &tantivy::Index, default_search_fields: &[Field]) -> (r: Result<
        QueryContainer,
        StoreError,
    >)
        ensures
            text_parsed(*index, default_search_fields@, r),
    {
        parse_text(index, default_search_fields, self)
    }
}

impl AsQuery for String {
    /// The query that the text stands for. Fails where a default search
    /// field is no field of the schema, and else only where the text is
    /// malformed, and then as a malformed query.
    fn as_query(&self, index: &tantivy::Index, default_search_fields: &[Field]) -> (r: Result<
        QueryContainer,
        StoreError,
    >)
        ensures
            text_parsed(*index, default_search_fields@, r),
    {
        parse_text(index, default_search_fields, self.as_str())
    }
}

impl AsQuery for QueryContainer {
    /// The query itself: a query that is built already is used as it is.
    fn as_query(&self, index: &tantivy::Index, default_search_fields: &[Field]) -> (r: Result<
        QueryContainer,
        StoreError,
    >)
        ensures
            r is Ok,
    {
        Ok(query_clone(self))
    }
}

impl<U: AsQuery + ?Sized> AsQuery for &U {
    /// The query of what is referred to.
    fn as_query(&self, index: &tantivy::Index, default_search_fields: &[Field]) -> (r: Result<
        QueryContainer,
        StoreError,
    >)
        ensures
            call_ensures(U::as_query, (*self, index, default_search_fields), r),
    {
        (*self).as_query(index, default_search_fields)
    }
}

} // verus!

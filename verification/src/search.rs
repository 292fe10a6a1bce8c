//! Items relating to `tantivy` and searching.
//!
//! A [`SearchIndex`] is a `tantivy` index with its one writer. Its schema
//! holds a reserved field for the identifier of a document, unsigned,
//! indexed and fast, and after it the fields that the record type declares.
//!
//! The contracts speak of what the writer was handed as sequences of
//! operations, [`writer_staged`] and [`writer_committed`]. Of what a search
//! returns they say what holds whatever the engine matches: the matches
//! come in the order of results, by score and then by identifier.
//!
//! A search collects the matches with `tantivy`'s own collectors, since an
//! implementation of the engine's collector trait cannot be verified; the
//! collector of scored identifiers, [`ScoredIds`], then orders what was
//! matched.

pub mod as_query;
pub mod collect;
pub mod log;
pub mod params;
pub mod scored_ids;

pub use as_query::{
    field_number, fields_fit, index_field_count, parser_default_fields, parser_field_count,
    parser_requires_all, AsQuery, QueryContainer,
};
pub use collect::{Collect, Count, Searcher};
pub use log::{no_ops, stamped, values_under, IndexOp};
pub use params::Params;
pub use scored_ids::{Score, ScoredId, ScoredIds, ScoredIdsSegmentCollector};

use crate::db::or_else;
use crate::err::{misconfigured, StoreError};
use crate::search::scored_ids::{gathered, ranked};
use crate::store::{Document, DocumentLike};
use std::marker::PhantomData;
use tantivy::query::QueryParser;
use tantivy::schema::{Field, Schema, SchemaBuilder};
use tantivy::{TantivyDocument, TantivyError};
use vstd::prelude::*;

verus! {

/// The name of the identifier field where none is set.
pub const DEFAULT_ID_FIELD_NAME: &'static str = "__id__";

/// The memory budget of the index writer where none is set, in bytes.
pub const DEFAULT_WRITER_BUDGET: usize = 128_000_000;

/// The greatest number of a field that a document can hold a value for.
pub const MAX_FIELD: u32 = 0xFFFF;

/// Whether `name` can be the name of a field: it is not empty and does not
/// begin with a hyphen.
pub open spec fn is_field_name(name: Seq<char>) -> bool {
    name.len() > 0 && name[0] != '-'
}

/// Whether `name` can be the name of a field.
pub fn valid_field_name(name: &str) -> (valid: bool)
    ensures
        valid == is_field_name(name@),
{
    !name.is_empty() && name.get_char(0) != '-'
}

/// The single writer of an index. The engine's writer is generic over one of
/// the engine's traits, so it is kept unopened.
#[verifier::external_body]
pub struct Writer {
    inner: tantivy::IndexWriter,
}

/// The unsigned values that a document holds, by the number of their field.
pub uninterp spec fn doc_numbers(doc: TantivyDocument) -> Map<u32, Seq<u64>>;

/// The operations that a writer was handed since the last commit, in
/// order: what it holds to be committed.
pub uninterp spec fn writer_staged(writer: Writer) -> Seq<IndexOp>;

/// The operations that were committed to the index of a writer, in order.
pub uninterp spec fn writer_committed(writer: Writer) -> Seq<IndexOp>;

/// The number of fields of the schema that the index of a writer was made
/// with.
pub uninterp spec fn writer_field_count(writer: Writer) -> nat;

/// `SchemaBuilder::default`, then `SchemaBuilder::add_u64_field` with the
/// options `INDEXED | FAST`: a schema whose one field, that of the given
/// name, has the number 0. The engine panics on what is no name of a field.
#[verifier::external_body]
fn schema_with_id(name: &str) -> (r: (SchemaBuilder, u32))
    requires
        is_field_name(name@),
    ensures
        r.1 == 0,
{
    let mut schema_builder = SchemaBuilder::default();
    let options = tantivy::schema::INDEXED | tantivy::schema::FAST;
    let field = schema_builder.add_u64_field(name, options);
    (schema_builder, field.field_id())
}

/// `SchemaBuilder::build`: the schema of the fields declared.
#[verifier::external_body]
fn schema_build(schema_builder: SchemaBuilder) -> Schema {
    schema_builder.build()
}

/// `MmapDirectory::open`, then `Index::open_or_create`: the index kept in
/// the directory `dir`, which must exist, made anew with `schema` where the
/// directory holds none.
#[verifier::external_body]
fn index_open(dir: &str, schema: Schema) -> Result<tantivy::Index, TantivyError> {
    let directory = tantivy::directory::MmapDirectory::open(dir).map_err(TantivyError::from)?;
    tantivy::Index::open_or_create(directory, schema)
}

/// `Index::set_default_multithread_executor`: searches run on as many
/// threads as the machine has processors.
#[verifier::external_body]
fn index_default_executor(index: &mut tantivy::Index) -> Result<(), TantivyError> {
    index.set_default_multithread_executor()
}

/// `Index::set_multithread_executor`: searches run on `threads` threads.
#[verifier::external_body]
fn index_executor(index: &mut tantivy::Index, threads: usize) -> Result<(), TantivyError> {
    index.set_multithread_executor(threads)
}

/// `Index::writer`: the writer of the index, with a memory budget of
/// `budget` bytes. A new writer was handed nothing yet.
#[verifier::external_body]
fn index_writer(index: &tantivy::Index, budget: usize) -> (r: Result<Writer, TantivyError>)
    ensures
        r matches Ok(writer) ==> writer_staged(writer) == no_ops() && writer_field_count(writer)
            == index_field_count(*index),
{
    index.writer(budget).map(|inner| Writer { inner })
}

/// `IndexWriter::index`, then `Index::schema` and `Schema::num_fields`: the
/// number of fields of the schema of the writer's index.
#[verifier::external_body]
fn writer_fields_len(writer: &Writer) -> (count: usize)
    ensures
        count == writer_field_count(*writer),
{
    writer.inner.index().schema().num_fields()
}

/// `TantivyDocument::add_u64`: the document holds `value` under `field`,
/// after what it held there. The engine panics on a field above `MAX_FIELD`.
#[verifier::external_body]
fn doc_add_u64(doc: &mut TantivyDocument, field: u32, value: u64)
    requires
        field <= MAX_FIELD,
    ensures
        doc_numbers(*final(doc)) == stamped(doc_numbers(*old(doc)), field, value),
{
    doc.add_u64(Field::from_field_id(field), value)
}

/// `IndexWriter::add_document`: where it succeeds, the writer was handed
/// the document. Nothing is committed by it.
#[verifier::external_body]
fn writer_add(writer: &mut Writer, doc: TantivyDocument) -> (r: Result<(), TantivyError>)
    ensures
        writer_committed(*final(writer)) == writer_committed(*old(writer)),
        writer_field_count(*final(writer)) == writer_field_count(*old(writer)),
        r is Ok ==> writer_staged(*final(writer)) == writer_staged(*old(writer)).push(
            IndexOp::Add(doc_numbers(doc)),
        ),
{
    writer.inner.add_document(doc).map(|_| ())
}

/// `IndexWriter::delete_query` with a `TermQuery` for the term of
/// `Term::from_field_u64`: where it succeeds, the writer was handed the
/// deletion of the documents that hold `value` under the field with the
/// number `field`; where the engine cannot run the query, as for a field
/// that is neither indexed nor fast, the writer was handed nothing. Nothing
/// is committed by it. The engine panics on a field that the schema does
/// not have.
#[verifier::external_body]
fn writer_delete(writer: &mut Writer, field: u32, value: u64) -> (r: Result<(), TantivyError>)
    requires
        field < writer_field_count(*old(writer)),
    ensures
        writer_committed(*final(writer)) == writer_committed(*old(writer)),
        writer_field_count(*final(writer)) == writer_field_count(*old(writer)),
        r is Ok ==> writer_staged(*final(writer)) == writer_staged(*old(writer)).push(
            (IndexOp::Delete { field, value }),
        ),
        r is Err ==> writer_staged(*final(writer)) == writer_staged(*old(writer)),
{
    let term = tantivy::Term::from_field_u64(Field::from_field_id(field), value);
    let basic = tantivy::schema::IndexRecordOption::Basic;
    let query = tantivy::query::TermQuery::new(term, basic);
    writer.inner.delete_query(Box::new(query)).map(|_| ())
}

/// `IndexWriter::commit`: where it succeeds, what the writer was handed
/// since its last commit is committed, in the order in which it was handed
/// over, and new readers see it.
#[verifier::external_body]
fn writer_commit(writer: &mut Writer) -> (r: Result<(), TantivyError>)
    ensures
        writer_field_count(*final(writer)) == writer_field_count(*old(writer)),
        r is Ok ==> writer_committed(*final(writer)) == writer_committed(*old(writer))
            + writer_staged(*old(writer)) && writer_staged(*final(writer)) == no_ops(),
{
    writer.inner.commit().map(|_| ())
}

/// `Index::reader` and `IndexReader::searcher`, then `Searcher::search` with
/// the collectors `Count` and `TopDocs` over as many documents as the
/// searcher has: the number of documents that match `query`, and for each
/// of them the bits of its score and the first value of its fast field
/// `id_field_name`, where it has one. Both collectors are fed the same
/// documents, and the second may retain as many as the searcher has, so it
/// retains as many as the first counts.
#[verifier::external_body]
fn index_search(index: &tantivy::Index, query: &QueryContainer, id_field_name: &str) -> (r: Result<
    (usize, Vec<(u32, Option<u64>)>),
    TantivyError,
>)
    ensures
        r matches Ok(found) ==> found.1@.len() == found.0,
{
    let searcher = index.reader()?.searcher();
    let all = tantivy::collector::TopDocs::for_doc_range(0..searcher.num_docs() as usize);
    let collectors = (tantivy::collector::Count, all.order_by_score());
    let (count, top) = searcher.search(query.inner.as_ref(), &collectors)?;
    let id_of = |at: tantivy::DocAddress| {
        let columns = searcher.segment_reader(at.segment_ord).fast_fields();
        columns.u64(id_field_name).ok().and_then(|column| column.first(at.doc_id))
    };
    Ok((count, top.into_iter().map(|(score, at)| (score.to_bits(), id_of(at))).collect()))
}

/// How searches are run on an index.
#[derive(Debug, Clone, Copy)]
pub enum IndexConfig {
    /// On a pool of this many threads.
    Threads(usize),
    /// On the thread that asks.
    CallingThread,
}

/// Wrapper around `tantivy::Index`, with additional search data.
pub struct SearchIndex<T> {
    pub fields: T,
    id_field: u16,
    id_field_name: String,
    default_search_fields: Vec<Field>,
    inner: tantivy::Index,
    writer: Writer,
}

/// A container for an index's fields, for record types that need no more
/// than the handles of their fields in the order of their declaration.
pub struct FieldsContainer(pub Vec<Field>);

/// `Document` wrapper that includes the search query score.
#[derive(Debug, Clone)]
pub struct Hit<T> {
    pub score: Score,
    pub doc: Document<T>,
}

/// Search results container, contains the `count` of returned results.
#[derive(Debug, Clone)]
pub struct Results<T> {
    pub count: usize,
    pub hits: Vec<Hit<T>>,
}

/// The matches that carry an identifier, as scored identifiers, in order.
pub open spec fn scored(raw: Seq<(u32, Option<u64>)>) -> Seq<ScoredId>
    decreases raw.len(),
{
    if raw.len() == 0 {
        Seq::empty()
    } else {
        let front = scored(raw.drop_last());
        match raw.last().1 {
            Some(id) => front.push(ScoredId { id, score: Score { bits: raw.last().0 } }),
            None => front,
        }
    }
}

impl<T> SearchIndex<T> {
    /// Create a new builder.
    pub fn builder() -> (builder: IndexBuilder<T>)
        ensures
            builder.index_dir is None,
            builder.id_field_name is None,
            builder.writer_accessor is None,
            builder.config is None,
    {
        IndexBuilder::default()
    }

    /// The number of the reserved field that holds a document's identifier.
    pub closed spec fn id_field_number(&self) -> u32 {
        self.id_field as u32
    }

    /// The container of the index's fields.
    pub closed spec fn spec_fields(&self) -> T {
        self.fields
    }

    /// The number of the reserved field that holds a document's identifier.
    pub fn id_field(&self) -> (field: u32)
        ensures
            field == self.id_field_number(),
            field <= MAX_FIELD,
    {
        self.id_field as u32
    }

    /// The container of the index's fields.
    pub fn fields(&self) -> (fields: &T)
        ensures
            *fields == self.spec_fields(),
    {
        &self.fields
    }

    /// The name of the reserved field that holds a document's identifier.
    pub closed spec fn spec_id_field_name(&self) -> Seq<char> {
        self.id_field_name@
    }

    /// The name of the reserved field that holds a document's identifier.
    pub fn id_field_name(&self) -> (name: &str)
        ensures
            name@ == self.spec_id_field_name(),
    {
        self.id_field_name.as_str()
    }

    /// The fields that a term of a query is looked for in where it names
    /// none.
    pub closed spec fn spec_default_search_fields(&self) -> Seq<Field> {
        self.default_search_fields@
    }

    /// The fields that a term of a query is looked for in where it names
    /// none.
    pub fn default_search_fields(&self) -> (fields: &[Field])
        ensures
            fields@ == self.spec_default_search_fields(),
    {
        self.default_search_fields.as_slice()
    }

    /// The engine's handle of the index.
    pub fn inner(&self) -> (inner: &tantivy::Index)
        ensures
            *inner == self.spec_inner(),
    {
        &self.inner
    }

    /// The operations that the writer was handed since its last commit.
    pub closed spec fn staged(&self) -> Seq<IndexOp> {
        writer_staged(self.writer)
    }

    /// The operations that the writer has committed.
    pub closed spec fn committed(&self) -> Seq<IndexOp> {
        writer_committed(self.writer)
    }

    /// Get the query parser associated with index and default search fields:
    /// it looks for a term that names no field in the default search fields
    /// of the index, and takes terms that stand side by side as terms that
    /// must all match.
    pub fn query_parser(&self) -> (parser: QueryParser)
        ensures
            parser_default_fields(parser) == self.spec_default_search_fields(),
            parser_field_count(parser) == index_field_count(self.spec_inner()),
            parser_requires_all(parser),
    {
        as_query::text_parser(&self.inner, self.default_search_fields.as_slice())
    }

    /// Hands the writer `doc`, stamped with the identifier `id`.
    pub fn add_document(&mut self, doc: TantivyDocument, id: u64) -> (r: Result<(), StoreError>)
        ensures
            final(self).same_setup(*old(self)),
            final(self).committed() == old(self).committed(),
            r is Ok ==> final(self).staged() == old(self).staged().push(
                IndexOp::Add(stamped(doc_numbers(doc), old(self).id_field_number(), id)),
            ),
            r matches Err(e) ==> e is Tantivy,
    {
        let mut doc = doc;
        doc_add_u64(&mut doc, self.id_field as u32, id);
        match writer_add(&mut self.writer, doc) {
            Ok(()) => Ok(()),
            Err(e) => Err(StoreError::Tantivy(e)),
        }
    }

    /// Whether the schema of the index has the identifier field.
    pub closed spec fn has_id_field(&self) -> bool {
        self.id_field < writer_field_count(self.writer)
    }

    /// Whether the schema of the index has the identifier field.
    pub fn check_id_field(&self) -> (has: bool)
        ensures
            has == self.has_id_field(),
    {
        (self.id_field as usize) < writer_fields_len(&self.writer)
    }

    /// Hands the writer the deletion of the documents stamped with `id`.
    /// Fails where the schema of the index has no identifier field or the
    /// engine does not take the deletion, and then the writer was handed
    /// nothing.
    pub fn delete_term(&mut self, id: u64) -> (r: Result<(), StoreError>)
        ensures
            final(self).same_setup(*old(self)),
            final(self).committed() == old(self).committed(),
            r is Ok ==> old(self).has_id_field() && final(self).staged() == old(
                self,
            ).staged().push((IndexOp::Delete { field: old(self).id_field_number(), value: id })),
            r is Err ==> final(self).staged() == old(self).staged(),
            !old(self).has_id_field() ==> (r matches Err(StoreError::Config(text)) && text@
                == "identifier field not in schema"@),
            old(self).has_id_field() ==> (r matches Err(e) ==> e is Tantivy),
    {
        if !self.check_id_field() {
            return Err(misconfigured("identifier field not in schema"));
        }
        match writer_delete(&mut self.writer, self.id_field as u32, id) {
            Ok(()) => Ok(()),
            Err(e) => Err(StoreError::Tantivy(e)),
        }
    }

    /// Commits what the writer was handed since its last commit.
    pub fn commit(&mut self) -> (r: Result<(), StoreError>)
        ensures
            final(self).same_setup(*old(self)),
            r is Ok ==> final(self).committed() == old(self).committed() + old(self).staged()
                && final(self).staged() == no_ops(),
            r matches Err(e) ==> e is Tantivy,
    {
        match writer_commit(&mut self.writer) {
            Ok(()) => Ok(()),
            Err(e) => Err(StoreError::Tantivy(e)),
        }
    }

    /// The engine's handle of the index.
    pub closed spec fn spec_inner(&self) -> tantivy::Index {
        self.inner
    }

    /// Whether `self` is set up as `other` is: the same fields, under the
    /// same names and numbers, over the same handle of the engine and the
    /// same schema.
    pub open spec fn same_setup(&self, other: SearchIndex<T>) -> bool {
        &&& self.id_field_number() == other.id_field_number()
        &&& self.spec_id_field_name() == other.spec_id_field_name()
        &&& self.spec_fields() == other.spec_fields()
        &&& self.spec_default_search_fields() == other.spec_default_search_fields()
        &&& self.spec_inner() == other.spec_inner()
        &&& self.has_id_field() == other.has_id_field()
    }

    /// Runs `query`: the number of documents that match, and the matches
    /// that carry an identifier, in the order of results.
    pub fn matches(&self, query: &QueryContainer) -> (r: Result<(usize, Vec<ScoredId>), StoreError>)
        ensures
            r matches Ok(found) ==> ranked(found.1@) && found.1@.len() <= found.0,
            r matches Err(e) ==> e is Tantivy,
    {
        match index_search(&self.inner, query, self.id_field_name.as_str()) {
            Ok(found) => {
                let ids: Vec<ScoredId> = collect_matches(self.id_field as u32, &found.1);
                Ok((found.0, ids))
            },
            Err(e) => Err(StoreError::Tantivy(e)),
        }
    }
}

/// What the collector of scored identifiers makes of the matches of a
/// query: those that carry an identifier, each once, in the order of
/// results.
pub fn collect_matches(id_field: u32, raw: &Vec<(u32, Option<u64>)>) -> (out: Vec<ScoredId>)
    ensures
        ranked(out@),
        out@.to_multiset() == scored(raw@).to_multiset(),
        out@.len() <= raw@.len(),
{
    let collector = ScoredIds { size_hint: Some(raw.len()), id_field };
    let mut segment: ScoredIdsSegmentCollector = collector.for_segment();
    let mut i: usize = 0;
    while i < raw.len()
        invariant
            i <= raw@.len(),
            segment.buffer@ == scored(raw@.take(i as int)),
        decreases raw@.len() - i,
    {
        proof {
            let next = raw@.take(i + 1);
            assert(next.drop_last() =~= raw@.take(i as int));
        }
        segment.collect(raw[i].1, Score::from_bits(raw[i].0));
        i += 1;
    }
    proof {
        assert(raw@.take(i as int) =~= raw@);
    }
    let fruit: Vec<ScoredId> = segment.harvest();
    let mut fruits: Vec<Vec<ScoredId>> = Vec::new();
    fruits.push(fruit);
    proof {
        assert(gathered(fruits@.drop_last()) =~= Seq::<ScoredId>::empty());
    }
    let out: Vec<ScoredId> = collector.merge_fruits(fruits);
    proof {
        lemma_scored_len(raw@);
        out@.to_multiset_ensures();
        scored(raw@).to_multiset_ensures();
    }
    out
}

/// No more matches carry an identifier than there are matches.
pub proof fn lemma_scored_len(raw: Seq<(u32, Option<u64>)>)
    ensures
        scored(raw).len() <= raw.len(),
    decreases raw.len(),
{
    if raw.len() > 0 {
        lemma_scored_len(raw.drop_last());
    }
}

/// Whether `defaults` may be the default search fields that the record type
/// `D` gives for its fields `fields`.
pub open spec fn default_fields_of<D: DocumentLike>(
    fields: D::IndexFieldsType,
    defaults: Seq<Field>,
) -> bool {
    exists|v: Vec<Field>| #[trigger]
        v@ == defaults && call_ensures(D::default_search_fields, (&fields,), v)
}

/// Whether `fields` may be what the record type `D` returns where it
/// declares its fields.
pub open spec fn declares<D: DocumentLike>(fields: D::IndexFieldsType) -> bool {
    exists|schema_builder: &mut SchemaBuilder|
        call_ensures(
            D::index_fields,
            (schema_builder,),
            Ok::<D::IndexFieldsType, StoreError>(fields),
        )
}

/// Whether `e` may be the failure of the record type `D` where it declares
/// its fields.
pub open spec fn declaring_fails<D: DocumentLike>(e: StoreError) -> bool {
    exists|schema_builder: &mut SchemaBuilder|
        call_ensures(D::index_fields, (schema_builder,), Err::<D::IndexFieldsType, StoreError>(e))
}

/// Whether `e` is a failure with which an index for the records of type `D`
/// may not be finished, given the directory and the name of the identifier
/// field that are set: that the directory is not set; that the name is no
/// name of a field; a failure of the search engine; or the failure of `D`
/// where it declares its fields.
pub open spec fn finish_fails<D: DocumentLike>(
    index_dir: Option<String>,
    id_field_name: Option<String>,
    e: StoreError,
) -> bool {
    ||| index_dir is None && e is Config
    ||| index_dir is Some && (id_field_name matches Some(name) && !is_field_name(name@)) && e
        is Config
    ||| e is Tantivy
    ||| declaring_fails::<D>(e)
}

/// Builder for a `SearchIndex`.
pub struct IndexBuilder<T> {
    pub index_dir: Option<String>,
    pub id_field_name: Option<String>,
    pub writer_accessor: Option<usize>,
    pub config: Option<IndexConfig>,
    pub marker: PhantomData<T>,
}

impl<T> Default for IndexBuilder<T> {
    fn default() -> (builder: IndexBuilder<T>)
        ensures
            builder.index_dir is None,
            builder.id_field_name is None,
            builder.writer_accessor is None,
            builder.config is None,
    {
        IndexBuilder {
            index_dir: None,
            id_field_name: None,
            writer_accessor: None,
            config: None,
            marker: PhantomData,
        }
    }
}

impl<T> IndexBuilder<T> {
    /// Fills what this builder leaves open from `other`: what this builder
    /// has set stays.
    pub fn merge(self, other: IndexBuilder<T>) -> (merged: IndexBuilder<T>)
        ensures
            merged.index_dir == or_else(self.index_dir, other.index_dir),
            merged.id_field_name == or_else(self.id_field_name, other.id_field_name),
            merged.writer_accessor == or_else(self.writer_accessor, other.writer_accessor),
            merged.config == or_else(self.config, other.config),
    {
        let index_dir: Option<String> = match self.index_dir {
            Some(dir) => Some(dir),
            None => other.index_dir,
        };
        let id_field_name: Option<String> = match self.id_field_name {
            Some(name) => Some(name),
            None => other.id_field_name,
        };
        let writer_accessor: Option<usize> = match self.writer_accessor {
            Some(budget) => Some(budget),
            None => other.writer_accessor,
        };
        let config: Option<IndexConfig> = match self.config {
            Some(config) => Some(config),
            None => other.config,
        };
        IndexBuilder { index_dir, id_field_name, writer_accessor, config, marker: PhantomData }
    }

    /// Use the given directory (must exist) for the index.
    pub fn with_index_dir(self, index_dir: &str) -> (builder: IndexBuilder<T>)
        ensures
            builder.index_dir matches Some(dir) && dir@ == index_dir@,
            builder.id_field_name == self.id_field_name,
            builder.writer_accessor == self.writer_accessor,
            builder.config == self.config,
    {
        IndexBuilder {
            index_dir: Some(index_dir.to_string()),
            id_field_name: self.id_field_name,
            writer_accessor: self.writer_accessor,
            config: self.config,
            marker: PhantomData,
        }
    }

    /// Define the memory budget, in bytes, that the index writer is asked
    /// for.
    ///
    /// By default will use `DEFAULT_WRITER_BUDGET`.
    pub fn with_writer_accessor(self, memory_budget: usize) -> (builder: IndexBuilder<T>)
        ensures
            builder.index_dir == self.index_dir,
            builder.id_field_name == self.id_field_name,
            builder.writer_accessor == Some(memory_budget),
            builder.config == self.config,
    {
        IndexBuilder {
            index_dir: self.index_dir,
            id_field_name: self.id_field_name,
            writer_accessor: Some(memory_budget),
            config: self.config,
            marker: PhantomData,
        }
    }

    /// Custom configuration for the index.
    ///
    /// By default searches run on as many threads as the machine has
    /// processors.
    pub fn with_config(self, config: IndexConfig) -> (builder: IndexBuilder<T>)
        ensures
            builder.index_dir == self.index_dir,
            builder.id_field_name == self.id_field_name,
            builder.writer_accessor == self.writer_accessor,
            builder.config == Some(config),
    {
        IndexBuilder {
            index_dir: self.index_dir,
            id_field_name: self.id_field_name,
            writer_accessor: self.writer_accessor,
            config: Some(config),
            marker: PhantomData,
        }
    }

    /// Set the field name to be used for the datastore `id`.
    ///
    /// By default will use `__id__`.
    pub fn with_id_field_name(self, id_field_name: &str) -> (builder: IndexBuilder<T>)
        ensures
            builder.index_dir == self.index_dir,
            builder.id_field_name matches Some(name) && name@ == id_field_name@,
            builder.writer_accessor == self.writer_accessor,
            builder.config == self.config,
    {
        IndexBuilder {
            index_dir: self.index_dir,
            id_field_name: Some(id_field_name.to_string()),
            writer_accessor: self.writer_accessor,
            config: self.config,
            marker: PhantomData,
        }
    }

    /// Convert into a finished `SearchIndex` for the records of type `D`.
    ///
    /// The schema holds the identifier field first, then the fields that
    /// `D` declares. Fails where the directory is not set; where the name
    /// of the identifier field is no name of a field; where `D` cannot
    /// declare its fields, with the failure that `D` gives; and where the
    /// engine cannot open the index, configure it or hand out its writer.
    pub fn finish<D: DocumentLike<IndexFieldsType = T>>(self) -> (r: Result<
        SearchIndex<T>,
        StoreError,
    >)
        ensures
            self.index_dir is None ==> (r matches Err(StoreError::Config(text)) && text@
                == "`index_dir` not set"@),
            self.index_dir is Some && (self.id_field_name matches Some(name) && !is_field_name(
                name@,
            )) ==> (r matches Err(StoreError::Config(text)) && text@
                == "`id_field_name` not valid"@),
            r matches Ok(index) ==> {
                &&& index.staged() == no_ops()
                &&& index.id_field_number() == 0
                &&& index.spec_id_field_name() == (match self.id_field_name {
                    Some(name) => name@,
                    None => DEFAULT_ID_FIELD_NAME@,
                })
                &&& declares::<D>(index.spec_fields())
                &&& default_fields_of::<D>(
                    index.spec_fields(),
                    index.spec_default_search_fields(),
                )
            },
            r matches Err(e) ==> finish_fails::<D>(self.index_dir, self.id_field_name, e),
    {
        let index_dir: String = match self.index_dir {
            Some(dir) => dir,
            None => {
                return Err(misconfigured("`index_dir` not set"));
            },
        };
        let id_field_name: String = match self.id_field_name {
            Some(name) => name,
            None => {
                proof {
                    reveal_strlit("__id__");
                }
                DEFAULT_ID_FIELD_NAME.to_string()
            },
        };
        if !valid_field_name(id_field_name.as_str()) {
            return Err(misconfigured("`id_field_name` not valid"));
        }
        let (mut schema_builder, id_field) = schema_with_id(id_field_name.as_str());
        let fields: T = match D::index_fields(&mut schema_builder) {
            Ok(fields) => fields,
            Err(e) => {
                return Err(e);
            },
        };
        let schema: Schema = schema_build(schema_builder);
        let mut inner: tantivy::Index = match index_open(index_dir.as_str(), schema) {
            Ok(index) => index,
            Err(e) => {
                return Err(StoreError::Tantivy(e));
            },
        };
        let configured: Result<(), TantivyError> = match self.config {
            Some(IndexConfig::Threads(threads)) => index_executor(&mut inner, threads),
            Some(IndexConfig::CallingThread) => Ok(()),
            None => index_default_executor(&mut inner),
        };
        match configured {
            Ok(()) => {},
            Err(e) => {
                return Err(StoreError::Tantivy(e));
            },
        }
        let budget: usize = match self.writer_accessor {
            Some(budget) => budget,
            None => DEFAULT_WRITER_BUDGET,
        };
        let default_search_fields: Vec<Field> = D::default_search_fields(&fields);
        let writer: Writer = match index_writer(&inner, budget) {
            Ok(writer) => writer,
            Err(e) => {
                return Err(StoreError::Tantivy(e));
            },
        };
        Ok(
            SearchIndex {
                id_field: id_field as u16,
                fields,
                id_field_name,
                default_search_fields,
                inner,
                writer,
            },
        )
    }
}

} // verus!

//! The document store and what it asks of a record type.
//!
//! # The write path
//!
//! Every write goes through the same steps. The schema of the index is
//! asked for the identifier field, and a schema without it fails the call.
//! The identifiers are fixed, generated where the records are new. Every
//! record is then encoded and projected, which touches neither tree nor
//! index. The tree is read under each identifier, so that a tree that
//! cannot be read fails the call here. The index writer is handed the
//! operations next; they are buffered and no reader sees them. The index is
//! committed, and last the tree takes all records of the call together, in
//! one batch.
//!
//! The index is committed just before the tree takes the batch, so that a
//! failure of any earlier step leaves the tree and the committed index as
//! they were. The commit of the index cannot be taken back: where the
//! storage engine fails to take the batch after it, the index holds
//! documents whose records the tree lacks. A search passes over such
//! documents, since every hit is fetched from the tree.
//!
//! Where the search engine fails while it is handed the operations or while
//! it commits them, what it was handed stays with its writer, and is
//! committed with the next write that succeeds.
//!
//! Writes take the store by exclusive reference, which makes the one writer
//! of the index a resource that no two calls hold at a time. Reads and
//! searches share the store.

pub mod consistency;
pub mod model;

use crate::db::{
    apply_writes, decode_key, is_above, key_of, lemma_key_of, lists, or_else, pairs, RecordTree,
    TreeBuilder, WriteBatch, KEY_LEN,
};
use crate::err::{custom, misconfigured, StoreError};
use crate::search::collect::Searcher;
use crate::search::log::{no_ops, IndexOp};
use crate::search::scored_ids::ranked;
use crate::search::{
    declares, default_fields_of, doc_numbers, finish_fails, is_field_name, AsQuery, Hit,
    IndexBuilder, QueryContainer, Results, ScoredId, SearchIndex, DEFAULT_ID_FIELD_NAME,
};
use crate::store::model::{
    adds_all, all_of, ascending, decodes, decoding_fails, deletes_all, deletions, encodes,
    encoding_fails, extends, hit_of, hits_of, ids_of, inners_of, lemma_extended, lemma_kept,
    lemma_prepared_push, lemma_removed, lemma_staging_adds, lemma_written, prepared,
    projection_fails, projects, refused, removals_of, removed, replaces_all, scores_of, staging,
    stored, tail, undecodable, unparsed, unreadable,
};
use std::marker::PhantomData;
use tantivy::schema::{Field, SchemaBuilder};
use tantivy::TantivyDocument;
use vstd::prelude::*;

verus! {

/// Persisted wrapper of the internal document, includes `id`.
#[derive(Debug, Clone)]
pub struct Document<T> {
    pub id: u64,
    pub inner: T,
}

impl<T> std::ops::Deref for Document<T> {
    type Target = T;

    fn deref(&self) -> (inner: &T)
        ensures
            *inner == self.inner,
    {
        &self.inner
    }
}

impl<T> std::ops::DerefMut for Document<T> {
    fn deref_mut(&mut self) -> (inner: &mut T)
        ensures
            *inner == old(self).inner,
            *final(self) == (Document { id: old(self).id, inner: *final(inner) }),
    {
        &mut self.inner
    }
}

/// Defines what the store needs of a record type: its canonical bytes, the
/// index fields it declares, and the index document of a record.
///
/// The store asks nothing of how a record is encoded, as long as a record
/// that is encoded and decoded again is the same record. The contracts say
/// of the methods only what comes out of them; that the round trip holds is
/// [`model::round_trips`], which the laws of the store take as given.
///
/// The index document of a record need not hold a value for every field. It
/// leaves the identifier field to the store, which stamps it with the
/// identifier of the record.
pub trait DocumentLike: Sized {
    /// The container for an index's fields.
    type IndexFieldsType;

    /// The canonical bytes of the record.
    fn to_bytes(&self) -> Result<Vec<u8>, StoreError>;

    /// The record that `bytes` encode.
    fn from_bytes(bytes: &[u8]) -> Result<Self, StoreError>;

    /// Adds the fields of the record type to a schema, and returns them in
    /// the fields container. The schema holds the identifier field already.
    fn index_fields(schema_builder: &mut SchemaBuilder) -> Result<
        Self::IndexFieldsType,
        StoreError,
    >;

    /// Given the fields container, the fields that a term of a query is
    /// looked for in where it names none.
    fn default_search_fields(index_fields: &Self::IndexFieldsType) -> Vec<Field>;

    /// Given the specified document and fields container, returns a
    /// `tantivy::TantivyDocument`.
    fn as_index_document(&self, index_fields: &Self::IndexFieldsType) -> Result<
        TantivyDocument,
        StoreError,
    >;

    /// Can be provided to set some or all of the tree's config.
    ///
    /// Will be merged with any configuration provided in
    /// `StoreBuilder::tree_builder`.
    fn tree_builder() -> TreeBuilder {
        TreeBuilder::default()
    }

    /// Can be provided to set some or all of the index's config.
    ///
    /// Will be merged with any configuration provided in
    /// `StoreBuilder::index_builder`.
    fn index_builder() -> IndexBuilder<Self::IndexFieldsType> {
        IndexBuilder::default()
    }
}

/// `core::slice::from_ref`: one value as a slice of length one.
#[verifier::external_body]
fn one<T>(value: &T) -> (slice: &[T])
    ensures
        slice@ == seq![*value],
{
    core::slice::from_ref(value)
}

/// The document store, contains the tree of records and the search index.
pub struct Store<T: DocumentLike> {
    tree: RecordTree,
    marker: PhantomData<T>,
    pub index: SearchIndex<T::IndexFieldsType>,
}

impl<T: DocumentLike> Store<T> {
    /// Create a new builder.
    pub fn builder() -> (builder: StoreBuilder<T>)
        ensures
            builder.tree_builder.db is None,
            builder.tree_builder.tree_name is None,
            builder.index_builder.index_dir is None,
            builder.index_builder.id_field_name is None,
            builder.index_builder.writer_accessor is None,
            builder.index_builder.config is None,
    {
        StoreBuilder::default()
    }

    /// What the tree holds: its values by key.
    pub closed spec fn entries(&self) -> Map<Seq<u8>, Seq<u8>> {
        self.tree.entries()
    }

    /// The records that the store holds: their bytes by identifier.
    pub open spec fn records(&self) -> Map<u64, Seq<u8>> {
        crate::db::records_of(self.entries())
    }

    /// The identifiers that the database of the store has issued.
    pub closed spec fn issued_ids(&self) -> Set<u64> {
        self.tree.issued()
    }

    /// Whether every record of the store is held under an identifier that
    /// the database has issued.
    pub open spec fn issued(&self) -> bool {
        forall|id: u64| #[trigger]
            self.records().contains_key(id) ==> self.issued_ids().contains(id)
    }

    /// The search index of the store.
    pub closed spec fn search_index(&self) -> SearchIndex<T::IndexFieldsType> {
        self.index
    }

    /// The search index of the store.
    pub fn index(&self) -> (index: &SearchIndex<T::IndexFieldsType>)
        ensures
            *index == self.search_index(),
    {
        &self.index
    }

    /// The operations that the index writer was handed since its last
    /// commit.
    pub open spec fn staged(&self) -> Seq<IndexOp> {
        self.search_index().staged()
    }

    /// The operations that the index writer has committed.
    pub open spec fn committed(&self) -> Seq<IndexOp> {
        self.search_index().committed()
    }

    /// Issues `n` identifiers, each above the one before.
    fn issue(&mut self, n: usize) -> (r: Result<Vec<u64>, StoreError>)
        ensures
            final(self).entries() == old(self).entries(),
            final(self).search_index() == old(self).search_index(),
            old(self).issued_ids().subset_of(final(self).issued_ids()),
            r matches Ok(ids) ==> {
                &&& ids@.len() == n
                &&& ascending(ids@)
                &&& forall|i: int|
                    0 <= i < n ==> final(self).issued_ids().contains(#[trigger] ids@[i])
                        && is_above(ids@[i], old(self).issued_ids())
            },
            r matches Err(e) ==> e is Sled,
    {
        let mut ids: Vec<u64> = Vec::with_capacity(n);
        let mut i: usize = 0;
        while i < n
            invariant
                i <= n,
                ids@.len() == i,
                ascending(ids@),
                self.entries() == old(self).entries(),
                self.search_index() == old(self).search_index(),
                old(self).issued_ids().subset_of(self.issued_ids()),
                forall|k: int|
                    0 <= k < i ==> self.issued_ids().contains(#[trigger] ids@[k]) && is_above(
                        ids@[k],
                        old(self).issued_ids(),
                    ),
            decreases n - i,
        {
            match self.tree.generate_id() {
                Ok(id) => {
                    ids.push(id);
                },
                Err(e) => {
                    return Err(e);
                },
            }
            i += 1;
        }
        Ok(ids)
    }

    /// Encodes and projects one record: `batch` then stores its bytes
    /// under `id`, and `docs` ends with its index document. The bytes are
    /// returned for the proof.
    fn prepare(
        &self,
        id: u64,
        inner: &T,
        batch: &mut WriteBatch,
        docs: &mut Vec<TantivyDocument>,
    ) -> (r: Result<Ghost<Seq<u8>>, StoreError>)
        ensures
            r matches Ok(bytes) ==> {
                &&& encodes(*inner, bytes@)
                &&& final(batch).writes() == old(batch).writes().insert(key_of(id), Some(bytes@))
                &&& final(docs)@.len() == old(docs)@.len() + 1
                &&& final(docs)@.drop_last() == old(docs)@
                &&& projects(
                    *inner,
                    self.search_index().spec_fields(),
                    doc_numbers(final(docs)@.last()),
                )
            },
            r matches Err(e) ==> encoding_fails(*inner, e) || projection_fails(
                *inner,
                self.search_index().spec_fields(),
                e,
            ),
    {
        let bytes: Vec<u8> = match inner.to_bytes() {
            Ok(bytes) => bytes,
            Err(e) => {
                return Err(e);
            },
        };
        let doc: TantivyDocument = match inner.as_index_document(self.index.fields()) {
            Ok(doc) => doc,
            Err(e) => {
                return Err(e);
            },
        };
        batch.insert(id, bytes.as_slice());
        docs.push(doc);
        proof {
            assert(encodes(*inner, bytes@));
        }
        Ok(Ghost(bytes@))
    }

    /// Hands the index writer each document of `docs`, stamped with its
    /// identifier of `ids`; before each, where `replace` is set, the
    /// deletion of what is stamped with that identifier.
    fn stage(&mut self, docs: Vec<TantivyDocument>, ids: &Vec<u64>, replace: bool) -> (r: Result<
        (),
        StoreError,
    >)
        requires
            docs@.len() == ids@.len(),
            old(self).search_index().has_id_field(),
        ensures
            final(self).entries() == old(self).entries(),
            final(self).issued_ids() == old(self).issued_ids(),
            final(self).search_index().same_setup(old(self).search_index()),
            final(self).committed() == old(self).committed(),
            r is Ok ==> final(self).staged() == old(self).staged() + staging(
                docs@,
                ids@,
                old(self).search_index().id_field_number(),
                replace,
            ),
            r matches Err(e) ==> e is Tantivy,
    {
        let ghost all = docs@;
        let ghost field = self.search_index().id_field_number();
        let n: usize = docs.len();
        let mut i: usize = 0;
        proof {
            assert(self.staged() =~= old(self).staged() + staging(
                all.take(0),
                ids@.take(0),
                field,
                replace,
            ));
        }
        for doc in it: docs
            invariant
                it.seq() == all,
                i == it.index(),
                all.len() == ids@.len(),
                all.len() == n,
                old(self).search_index().has_id_field(),
                self.entries() == old(self).entries(),
                self.issued_ids() == old(self).issued_ids(),
                self.search_index().same_setup(old(self).search_index()),
                self.search_index().id_field_number() == field,
                self.committed() == old(self).committed(),
                self.staged() == old(self).staged() + staging(
                    all.take(i as int),
                    ids@.take(i as int),
                    field,
                    replace,
                ),
        {
            let ghost before = self.staged();
            let id: u64 = ids[i];
            proof {
                let next_docs = all.take(i + 1);
                let next_ids = ids@.take(i + 1);
                assert(next_docs.drop_last() =~= all.take(i as int));
                assert(next_ids.drop_last() =~= ids@.take(i as int));
            }
            if replace {
                match self.index.delete_term(id) {
                    Ok(()) => {},
                    Err(e) => {
                        return Err(e);
                    },
                }
            }
            match self.index.add_document(doc, id) {
                Ok(()) => {},
                Err(e) => {
                    return Err(e);
                },
            }
            proof {
                assert(self.staged() =~= old(self).staged() + staging(
                    all.take(i + 1),
                    ids@.take(i + 1),
                    field,
                    replace,
                ));
            }
            i += 1;
        }
        proof {
            assert(all.take(i as int) =~= all);
            assert(ids@.take(i as int) =~= ids@);
        }
        Ok(())
    }

    /// Whether `after` is `before` once the records `inners` were created
    /// under the identifiers `ids`: the identifiers are new and ascend, the
    /// tree holds the bytes of each record under its identifier and is
    /// otherwise as it was, and the index has committed what was staged
    /// before and then the addition of each record's index document,
    /// stamped with the identifier.
    pub open spec fn created(before: Self, after: Self, inners: Seq<T>, ids: Seq<u64>) -> bool {
        let base = before.committed() + before.staged();
        &&& after.search_index().same_setup(before.search_index())
        &&& ids.len() == inners.len()
        &&& ascending(ids)
        &&& before.issued_ids().subset_of(after.issued_ids())
        &&& forall|i: int|
            0 <= i < ids.len() ==> after.issued_ids().contains(#[trigger] ids[i]) && is_above(
                ids[i],
                before.issued_ids(),
            )
        &&& stored(before.entries(), after.entries(), ids, inners)
        &&& extends(after.committed(), base)
        &&& adds_all(
            tail(after.committed(), base.len()),
            ids,
            inners,
            before.search_index().spec_fields(),
            before.search_index().id_field_number(),
        )
        &&& after.staged() == no_ops()
    }

    /// Whether `after` is `before` once the documents `docs` were updated:
    /// the tree holds the bytes of each record under its identifier and is
    /// otherwise as it was, and the index has committed what was staged
    /// before and then, for each document, the deletion of what is stamped
    /// with its identifier and the addition of its index document.
    pub open spec fn updated(before: Self, after: Self, docs: Seq<Document<T>>) -> bool {
        let base = before.committed() + before.staged();
        &&& after.search_index().same_setup(before.search_index())
        &&& after.issued_ids() == before.issued_ids()
        &&& stored(before.entries(), after.entries(), ids_of(docs), inners_of(docs))
        &&& extends(after.committed(), base)
        &&& replaces_all(
            tail(after.committed(), base.len()),
            ids_of(docs),
            inners_of(docs),
            before.search_index().spec_fields(),
            before.search_index().id_field_number(),
        )
        &&& after.staged() == no_ops()
    }

    /// Whether `after` is `before` once the records of the identifiers
    /// `ids` were deleted: the tree holds none of them and is otherwise as
    /// it was, and the index has committed what was staged before and then
    /// the deletion of what is stamped with each identifier.
    pub open spec fn deleted(before: Self, after: Self, ids: Seq<u64>) -> bool {
        let base = before.committed() + before.staged();
        &&& after.search_index().same_setup(before.search_index())
        &&& after.issued_ids() == before.issued_ids()
        &&& removed(before.entries(), after.entries(), ids)
        &&& extends(after.committed(), base)
        &&& deletes_all(
            tail(after.committed(), base.len()),
            ids,
            before.search_index().id_field_number(),
        )
        &&& after.staged() == no_ops()
    }

    /// Whether `after` is `before` once the documents `docs` were indexed
    /// again: the tree is as it was, and the index has committed what was
    /// staged before and then, for each document, the deletion of what is
    /// stamped with its identifier and the addition of its index document.
    pub open spec fn reindexed(before: Self, after: Self, docs: Seq<Document<T>>) -> bool {
        let base = before.committed() + before.staged();
        &&& after.search_index().same_setup(before.search_index())
        &&& after.issued_ids() == before.issued_ids()
        &&& after.entries() == before.entries()
        &&& extends(after.committed(), base)
        &&& replaces_all(
            tail(after.committed(), base.len()),
            ids_of(docs),
            inners_of(docs),
            before.search_index().spec_fields(),
            before.search_index().id_field_number(),
        )
        &&& after.staged() == no_ops()
    }

    /// Whether nothing of `before` has changed in `after`: neither what the
    /// tree holds nor what the index writer was handed and has committed.
    pub open spec fn untouched(before: Self, after: Self) -> bool {
        &&& after.entries() == before.entries()
        &&& after.committed() == before.committed()
        &&& after.staged() == before.staged()
    }

    /// Whether the failure `e` of a write of the records `inners` has left
    /// the store as such a write may leave it. Either nothing has changed,
    /// and the storage engine has failed, or the record type has refused
    /// one of the records with `e`, or the schema of the index lacks the
    /// identifier field. Or the search engine has failed, and the
    /// tree is as it was. Or the storage engine has failed to take the
    /// records after the index has committed all that its writer was
    /// handed.
    pub open spec fn failed(before: Self, after: Self, inners: Seq<T>, e: StoreError) -> bool {
        ||| Self::untouched(before, after) && (e is Sled || refused(
            inners,
            before.search_index().spec_fields(),
            e,
        ) || (e is Config && !before.search_index().has_id_field()))
        ||| e is Tantivy && after.entries() == before.entries()
        ||| e is Sled && extends(after.committed(), before.committed() + before.staged())
            && after.staged() == no_ops()
    }

    /// Reads what the tree holds under each identifier of `ids`, so that a
    /// tree that cannot be read fails the call before the index is touched.
    /// Nothing is read where no identifier is given, and nothing fails then;
    /// a failure is that of the storage engine at the first read that fails.
    fn probe(&self, ids: &[u64]) -> (r: Result<(), StoreError>)
        ensures
            ids@.len() == 0 ==> r is Ok,
            r matches Err(e) ==> e is Sled,
    {
        let mut i: usize = 0;
        while i < ids.len()
            invariant
                i <= ids@.len(),
            decreases ids@.len() - i,
        {
            match self.tree.get(ids[i]) {
                Ok(_) => {},
                Err(e) => {
                    return Err(e);
                },
            }
            i += 1;
        }
        Ok(())
    }

    /// Commits the index, then applies `batch` to the tree.
    fn commit(&mut self, batch: WriteBatch) -> (r: Result<(), StoreError>)
        ensures
            final(self).search_index().same_setup(old(self).search_index()),
            final(self).issued_ids() == old(self).issued_ids(),
            r is Ok ==> {
                &&& final(self).entries() == apply_writes(old(self).entries(), batch.writes())
                &&& final(self).committed() == old(self).committed() + old(self).staged()
                &&& final(self).staged() == no_ops()
            },
            r matches Err(e) ==> (e is Tantivy && final(self).entries() == old(self).entries())
                || (e is Sled && final(self).committed() == old(self).committed() + old(
                self,
            ).staged() && final(self).staged() == no_ops()),
    {
        match self.index.commit() {
            Ok(()) => {},
            Err(e) => {
                return Err(e);
            },
        }
        self.tree.apply(batch)
    }

    /// Whether the schema of the index has the identifier field; the
    /// failure that says so where it has not.
    fn check(&self) -> (r: Result<(), StoreError>)
        ensures
            r is Ok <==> self.search_index().has_id_field(),
            r matches Err(e) ==> e is Config,
    {
        if self.index.check_id_field() {
            Ok(())
        } else {
            Err(misconfigured("identifier field not in schema"))
        }
    }

    /// Encodes and projects each record of `inners`: the batch that stores
    /// the bytes of each under its identifier of `ids`, the index documents
    /// in order, and, for the proof, the bytes in order.
    fn prepare_new(&self, ids: &Vec<u64>, inners: &[T]) -> (r: Result<
        (WriteBatch, Vec<TantivyDocument>, Ghost<Seq<Seq<u8>>>),
        StoreError,
    >)
        requires
            ids@.len() == inners@.len(),
        ensures
            r matches Ok(made) ==> prepared(
                ids@,
                inners@,
                self.search_index().spec_fields(),
                made.0.writes(),
                made.1@,
                made.2@,
            ),
            r matches Err(e) ==> refused(inners@, self.search_index().spec_fields(), e),
    {
        let mut batch: WriteBatch = WriteBatch::new();
        let mut docs: Vec<TantivyDocument> = Vec::with_capacity(inners.len());
        let ghost mut values: Seq<Seq<u8>> = Seq::empty();
        let mut i: usize = 0;
        while i < inners.len()
            invariant
                i <= inners@.len(),
                ids@.len() == inners@.len(),
                prepared(
                    ids@.take(i as int),
                    inners@.take(i as int),
                    self.search_index().spec_fields(),
                    batch.writes(),
                    docs@,
                    values,
                ),
            decreases inners@.len() - i,
        {
            let ghost docs_before = docs@;
            let bytes = match self.prepare(ids[i], &inners[i], &mut batch, &mut docs) {
                Ok(bytes) => bytes,
                Err(e) => {
                    return Err(e);
                },
            };
            proof {
                lemma_prepared_push(
                    ids@.take(i as int),
                    inners@.take(i as int),
                    self.search_index().spec_fields(),
                    docs_before,
                    values,
                    ids@[i as int],
                    inners@[i as int],
                    docs@.last(),
                    bytes@,
                );
                assert(ids@.take(i as int).push(ids@[i as int]) =~= ids@.take(i + 1));
                assert(inners@.take(i as int).push(inners@[i as int]) =~= inners@.take(i + 1));
                assert(docs_before.push(docs@.last()) =~= docs@);
                values = values.push(bytes@);
            }
            i += 1;
        }
        proof {
            assert(ids@.take(i as int) =~= ids@);
            assert(inners@.take(i as int) =~= inners@);
        }
        Ok((batch, docs, Ghost(values)))
    }

    /// Encodes and projects the record of each document of `docs`: the
    /// identifiers in order, the batch that stores the bytes of each under
    /// its identifier, the index documents in order, and, for the proof, the
    /// bytes in order.
    fn prepare_docs(&self, docs: &[Document<T>]) -> (r: Result<
        (Vec<u64>, WriteBatch, Vec<TantivyDocument>, Ghost<Seq<Seq<u8>>>),
        StoreError,
    >)
        ensures
            r matches Ok(made) ==> made.0@ == ids_of(docs@) && prepared(
                ids_of(docs@),
                inners_of(docs@),
                self.search_index().spec_fields(),
                made.1.writes(),
                made.2@,
                made.3@,
            ),
            r matches Err(e) ==> refused(inners_of(docs@), self.search_index().spec_fields(), e),
    {
        let mut ids: Vec<u64> = Vec::with_capacity(docs.len());
        let mut batch: WriteBatch = WriteBatch::new();
        let mut index_docs: Vec<TantivyDocument> = Vec::with_capacity(docs.len());
        let ghost mut values: Seq<Seq<u8>> = Seq::empty();
        let mut i: usize = 0;
        while i < docs.len()
            invariant
                i <= docs@.len(),
                ids@ == ids_of(docs@).take(i as int),
                prepared(
                    ids_of(docs@).take(i as int),
                    inners_of(docs@).take(i as int),
                    self.search_index().spec_fields(),
                    batch.writes(),
                    index_docs@,
                    values,
                ),
            decreases docs@.len() - i,
        {
            let ghost docs_before = index_docs@;
            let id: u64 = docs[i].id;
            let bytes = match self.prepare(id, &docs[i].inner, &mut batch, &mut index_docs) {
                Ok(bytes) => bytes,
                Err(e) => {
                    assert(inners_of(docs@)[i as int] == docs@[i as int].inner);
                    return Err(e);
                },
            };
            ids.push(id);
            proof {
                lemma_prepared_push(
                    ids_of(docs@).take(i as int),
                    inners_of(docs@).take(i as int),
                    self.search_index().spec_fields(),
                    docs_before,
                    values,
                    id,
                    docs@[i as int].inner,
                    index_docs@.last(),
                    bytes@,
                );
                assert(ids_of(docs@).take(i as int).push(id) =~= ids_of(docs@).take(i + 1));
                assert(inners_of(docs@).take(i as int).push(docs@[i as int].inner) =~= inners_of(
                    docs@,
                ).take(i + 1));
                assert(docs_before.push(index_docs@.last()) =~= index_docs@);
                assert(ids@ =~= ids_of(docs@).take(i + 1));
                values = values.push(bytes@);
            }
            i += 1;
        }
        proof {
            assert(ids_of(docs@).take(i as int) =~= ids_of(docs@));
            assert(inners_of(docs@).take(i as int) =~= inners_of(docs@));
        }
        Ok((ids, batch, index_docs, Ghost(values)))
    }

    /// Whether `after` is `before` once the records `inners` were put
    /// under the identifiers `ids`: the tree holds the bytes of each record
    /// under its identifier and is otherwise as it was, and the index has
    /// committed what was staged before and then the addition of each
    /// record's index document, after the deletion of what is stamped with
    /// its identifier where `replace` is set.
    pub open spec fn put(
        before: Self,
        after: Self,
        ids: Seq<u64>,
        inners: Seq<T>,
        replace: bool,
    ) -> bool {
        let base = before.committed() + before.staged();
        let fields = before.search_index().spec_fields();
        let field = before.search_index().id_field_number();
        &&& after.search_index().same_setup(before.search_index())
        &&& after.issued_ids() == before.issued_ids()
        &&& stored(before.entries(), after.entries(), ids, inners)
        &&& extends(after.committed(), base)
        &&& if replace {
            replaces_all(tail(after.committed(), base.len()), ids, inners, fields, field)
        } else {
            adds_all(tail(after.committed(), base.len()), ids, inners, fields, field)
        }
        &&& after.staged() == no_ops()
    }

    /// Puts what was prepared: reads the tree under each identifier, hands
    /// the index writer the index documents, commits the index, and applies
    /// the batch to the tree.
    fn write(
        &mut self,
        ids: &Vec<u64>,
        batch: WriteBatch,
        docs: Vec<TantivyDocument>,
        replace: bool,
        Ghost(inners): Ghost<Seq<T>>,
        Ghost(values): Ghost<Seq<Seq<u8>>>,
    ) -> (r: Result<(), StoreError>)
        requires
            old(self).search_index().has_id_field(),
            prepared(
                ids@,
                inners,
                old(self).search_index().spec_fields(),
                batch.writes(),
                docs@,
                values,
            ),
        ensures
            final(self).search_index().same_setup(old(self).search_index()),
            final(self).issued_ids() == old(self).issued_ids(),
            r is Ok ==> Self::put(*old(self), *final(self), ids@, inners, replace),
            r matches Err(e) ==> Self::failed(*old(self), *final(self), inners, e),
    {
        match self.probe(ids.as_slice()) {
            Ok(()) => {},
            Err(e) => {
                return Err(e);
            },
        }
        let ghost staged_docs = docs@;
        let ghost base = old(self).committed() + old(self).staged();
        let ghost field = old(self).search_index().id_field_number();
        match self.stage(docs, ids, replace) {
            Ok(()) => {},
            Err(e) => {
                return Err(e);
            },
        }
        match self.commit(batch) {
            Ok(()) => {},
            Err(e) => {
                proof {
                    if e is Sled {
                        let ops = staging(staged_docs, ids@, field, replace);
                        lemma_extended(base, self.committed(), ops);
                    }
                }
                return Err(e);
            },
        }
        proof {
            let ops = staging(staged_docs, ids@, field, replace);
            lemma_extended(base, self.committed(), ops);
            lemma_written(
                old(self).entries(),
                self.entries(),
                ids@,
                inners,
                values,
                staged_docs,
                old(self).search_index().spec_fields(),
                field,
            );
        }
        Ok(())
    }

    /// Create a new `Document`, returns the persisted document's `id`.
    pub fn create(&mut self, inner: &T) -> (r: Result<u64, StoreError>)
        ensures
            final(self).search_index().same_setup(old(self).search_index()),
            old(self).issued_ids().subset_of(final(self).issued_ids()),
            r matches Ok(id) ==> Self::created(*old(self), *final(self), seq![*inner], seq![id]),
            r matches Err(e) ==> Self::failed(*old(self), *final(self), seq![*inner], e),
    {
        match self.create_multi(one(inner)) {
            Ok(ids) => {
                assert(ids@ =~= seq![ids@[0]]);
                Ok(ids[0])
            },
            Err(e) => Err(e),
        }
    }

    /// Create new `Document`s, returns the persisted documents' `id`s.
    ///
    /// The identifiers are generated first, then every record is encoded
    /// and projected, then the index documents are handed to the index
    /// writer; the index is committed, and last the tree takes all records
    /// together. A failure before the index is committed leaves tree and
    /// committed index as they were.
    pub fn create_multi(&mut self, inners: &[T]) -> (r: Result<Vec<u64>, StoreError>)
        ensures
            final(self).search_index().same_setup(old(self).search_index()),
            old(self).issued_ids().subset_of(final(self).issued_ids()),
            r matches Ok(ids) ==> Self::created(*old(self), *final(self), inners@, ids@),
            r matches Err(e) ==> Self::failed(*old(self), *final(self), inners@, e),
    {
        match self.check() {
            Ok(()) => {},
            Err(e) => {
                return Err(e);
            },
        }
        let ids: Vec<u64> = match self.issue(inners.len()) {
            Ok(ids) => ids,
            Err(e) => {
                return Err(e);
            },
        };
        let (batch, docs, values) = match self.prepare_new(&ids, inners) {
            Ok(made) => made,
            Err(e) => {
                return Err(e);
            },
        };
        match self.write(&ids, batch, docs, false, Ghost(inners@), values) {
            Ok(()) => Ok(ids),
            Err(e) => Err(e),
        }
    }

    /// Update a given `Document`.
    pub fn update(&mut self, doc: &Document<T>) -> (r: Result<(), StoreError>)
        ensures
            final(self).search_index().same_setup(old(self).search_index()),
            r is Ok ==> Self::updated(*old(self), *final(self), seq![*doc]),
            r matches Err(e) ==> Self::failed(*old(self), *final(self), seq![doc.inner], e),
    {
        let r = self.update_multi(one(doc));
        proof {
            assert(inners_of(seq![*doc]) =~= seq![doc.inner]);
        }
        r
    }

    /// Update given `Document`s.
    ///
    /// Every record is encoded and projected first; then the index writer
    /// is handed, for each document, the deletion of what is stamped with
    /// its identifier and its new index document; the index is committed,
    /// and last the tree takes all records together. A document whose
    /// identifier the tree does not hold is stored as well.
    pub fn update_multi(&mut self, docs: &[Document<T>]) -> (r: Result<(), StoreError>)
        ensures
            final(self).search_index().same_setup(old(self).search_index()),
            r is Ok ==> Self::updated(*old(self), *final(self), docs@),
            r matches Err(e) ==> Self::failed(*old(self), *final(self), inners_of(docs@), e),
    {
        match self.check() {
            Ok(()) => {},
            Err(e) => {
                return Err(e);
            },
        }
        let (ids, batch, index_docs, values) = match self.prepare_docs(docs) {
            Ok(made) => made,
            Err(e) => {
                return Err(e);
            },
        };
        self.write(&ids, batch, index_docs, true, Ghost(inners_of(docs@)), values)
    }

    /// Delete a `Document` by `id`.
    pub fn delete(&mut self, id: u64) -> (r: Result<(), StoreError>)
        ensures
            final(self).search_index().same_setup(old(self).search_index()),
            r is Ok ==> Self::deleted(*old(self), *final(self), seq![id]),
            r matches Err(e) ==> Self::failed(*old(self), *final(self), Seq::empty(), e),
    {
        self.delete_multi(one(&id))
    }

    /// Delete `Document`s by `id`s.
    ///
    /// The index writer is handed the deletion of what is stamped with each
    /// identifier; the index is committed, and last the tree drops all the
    /// records together. An identifier that the tree does not hold is
    /// passed over.
    pub fn delete_multi(&mut self, ids: &[u64]) -> (r: Result<(), StoreError>)
        ensures
            final(self).search_index().same_setup(old(self).search_index()),
            r is Ok ==> Self::deleted(*old(self), *final(self), ids@),
            r matches Err(e) ==> Self::failed(*old(self), *final(self), Seq::empty(), e),
    {
        match self.check() {
            Ok(()) => {},
            Err(e) => {
                return Err(e);
            },
        }
        match self.probe(ids) {
            Ok(()) => {},
            Err(e) => {
                return Err(e);
            },
        }
        let ghost field = self.search_index().id_field_number();
        let mut batch: WriteBatch = WriteBatch::new();
        let mut i: usize = 0;
        while i < ids.len()
            invariant
                i <= ids@.len(),
                self.entries() == old(self).entries(),
                self.issued_ids() == old(self).issued_ids(),
                self.search_index().same_setup(old(self).search_index()),
                old(self).search_index().has_id_field(),
                self.search_index().id_field_number() == field,
                self.committed() == old(self).committed(),
                self.staged() == old(self).staged() + deletions(ids@.take(i as int), field),
                batch.writes() == removals_of(ids@.take(i as int)),
            decreases ids@.len() - i,
        {
            let id: u64 = ids[i];
            match self.index.delete_term(id) {
                Ok(()) => {},
                Err(e) => {
                    return Err(e);
                },
            }
            batch.remove(id);
            proof {
                let next = ids@.take(i + 1);
                assert(next.drop_last() =~= ids@.take(i as int));
            }
            i += 1;
        }
        proof {
            assert(ids@.take(i as int) =~= ids@);
        }
        let ghost base = old(self).committed() + old(self).staged();
        match self.commit(batch) {
            Ok(()) => {},
            Err(e) => {
                proof {
                    if e is Sled {
                        lemma_extended(base, self.committed(), deletions(ids@, field));
                    }
                }
                return Err(e);
            },
        }
        proof {
            lemma_removed(old(self).entries(), self.entries(), ids@);
            lemma_extended(base, self.committed(), deletions(ids@, field));
        }
        Ok(())
    }

    /// Get all `Documents` from the datastore. Does not use the search
    /// index.
    ///
    /// The documents come in ascending order of their keys, the bytes of
    /// an identifier least significant first. Fails at the first entry
    /// whose key is no identifier's or whose value cannot be decoded.
    pub fn all(&self) -> (r: Result<Vec<Document<T>>, StoreError>)
        ensures
            r matches Ok(docs) ==> all_of(docs@, self.entries()),
            r matches Err(e) ==> e is Sled || unreadable::<T>(self.entries(), e),
    {
        let list: Vec<(Vec<u8>, Vec<u8>)> = match self.tree.iterate() {
            Ok(list) => list,
            Err(e) => {
                return Err(e);
            },
        };
        let ghost listing = pairs(list@);
        let mut docs: Vec<Document<T>> = Vec::with_capacity(list.len());
        let mut i: usize = 0;
        while i < list.len()
            invariant
                i <= list@.len(),
                docs@.len() == i,
                listing == pairs(list@),
                lists(listing, self.entries()),
                forall|k: int|
                    0 <= k < i ==> key_of((#[trigger] docs@[k]).id) == listing[k].0 && decodes(
                        listing[k].1,
                        docs@[k].inner,
                    ),
            decreases list@.len() - i,
        {
            let id: u64 = match decode_key(list[i].0.as_slice()) {
                Some(id) => id,
                None => {
                    proof {
                        assert(self.entries().contains_key(listing[i as int].0));
                    }
                    return Err(custom("could not convert slice to array"));
                },
            };
            let doc: Document<T> = match Self::decode(id, list[i].1.as_slice()) {
                Ok(doc) => doc,
                Err(e) => {
                    proof {
                        assert(self.entries().contains_key(listing[i as int].0));
                    }
                    return Err(e);
                },
            };
            docs.push(doc);
            i += 1;
        }
        proof {
            let entries = self.entries();
            assert forall|k: Seq<u8>| #[trigger] entries.contains_key(k) implies k.len()
                == KEY_LEN by {
                let p = choose|p: int| 0 <= p < listing.len() && #[trigger] listing[p].0 == k;
                lemma_key_of(docs@[p].id, 0);
            }
            assert forall|id: u64| #[trigger]
                entries.contains_key(key_of(id)) implies exists|p: int|
                0 <= p < docs@.len() && (#[trigger] docs@[p]).id == id by {
                let p = choose|p: int| 0 <= p < listing.len() && #[trigger] listing[p].0 == key_of(
                    id,
                );
                lemma_key_of(docs@[p].id, id);
            }
        }
        Ok(docs)
    }

    /// Index (or re-index) the given `Documents`: for each, what is stamped
    /// with its identifier is deleted from the index and its index document
    /// is added. Does not touch the tree.
    pub fn reindex(&mut self, docs: &[Document<T>]) -> (r: Result<(), StoreError>)
        ensures
            final(self).search_index().same_setup(old(self).search_index()),
            final(self).entries() == old(self).entries(),
            r is Ok ==> Self::reindexed(*old(self), *final(self), docs@),
            r matches Err(e) ==> Self::failed(*old(self), *final(self), inners_of(docs@), e),
    {
        match self.check() {
            Ok(()) => {},
            Err(e) => {
                return Err(e);
            },
        }
        let mut ids: Vec<u64> = Vec::with_capacity(docs.len());
        let mut index_docs: Vec<TantivyDocument> = Vec::with_capacity(docs.len());
        let mut i: usize = 0;
        while i < docs.len()
            invariant
                i <= docs@.len(),
                index_docs@.len() == i,
                ids@ == ids_of(docs@).take(i as int),
                *self == *old(self),
                forall|k: int|
                    0 <= k < i ==> projects(
                        docs@[k].inner,
                        self.search_index().spec_fields(),
                        doc_numbers(#[trigger] index_docs@[k]),
                    ),
            decreases docs@.len() - i,
        {
            let doc: TantivyDocument = match docs[i].inner.as_index_document(self.index.fields()) {
                Ok(doc) => doc,
                Err(e) => {
                    assert(inners_of(docs@)[i as int] == docs@[i as int].inner);
                    return Err(e);
                },
            };
            index_docs.push(doc);
            ids.push(docs[i].id);
            i += 1;
        }
        let ghost staged_docs = index_docs@;
        match self.stage(index_docs, &ids, true) {
            Ok(()) => {},
            Err(e) => {
                return Err(e);
            },
        }
        match self.index.commit() {
            Ok(()) => {},
            Err(e) => {
                return Err(e);
            },
        }
        proof {
            let fields = old(self).search_index().spec_fields();
            let field = old(self).search_index().id_field_number();
            let base = old(self).committed() + old(self).staged();
            lemma_staging_adds(staged_docs, ids@, inners_of(docs@), fields, field);
            lemma_extended(base, self.committed(), staging(staged_docs, ids@, field, true));
        }
        Ok(())
    }

    /// Index (or re-index) all `Documents` in the datastore.
    pub fn index_all(&mut self) -> (r: Result<(), StoreError>)
        ensures
            final(self).search_index().same_setup(old(self).search_index()),
            final(self).entries() == old(self).entries(),
            r is Ok ==> exists|docs: Seq<Document<T>>|
                all_of(docs, old(self).entries()) && #[trigger] Self::reindexed(
                    *old(self),
                    *final(self),
                    docs,
                ),
            r matches Err(e) ==> e is Sled || e is Tantivy || (Self::untouched(
                *old(self),
                *final(self),
            ) && (unreadable::<T>(old(self).entries(), e) || (e is Config && !old(
                self,
            ).search_index().has_id_field()) || exists|docs: Seq<Document<T>>|
                all_of(docs, old(self).entries()) && #[trigger] refused(
                    inners_of(docs),
                    old(self).search_index().spec_fields(),
                    e,
                ))),
    {
        let docs: Vec<Document<T>> = match self.all() {
            Ok(docs) => docs,
            Err(e) => {
                return Err(e);
            },
        };
        self.reindex(docs.as_slice())
    }

    /// Whether `r` is what `find` may return for `id`: none only where
    /// the tree holds no record under `id`; a document only where the tree
    /// holds its bytes under `id`; and no failure but one of the storage
    /// engine, or that of decoding the bytes held under `id`.
    pub open spec fn found(
        store: Self,
        id: u64,
        r: Result<Option<Document<T>>, StoreError>,
    ) -> bool {
        match r {
            Ok(None) => !store.records().contains_key(id),
            Ok(Some(doc)) => doc.id == id && store.records().contains_key(id) && decodes(
                store.records()[id],
                doc.inner,
            ),
            Err(e) => e is Sled || (store.records().contains_key(id) && decoding_fails::<T>(
                store.records()[id],
                e,
            )),
        }
    }

    /// Whether `r` is what `hits` may return for `count` matches with the
    /// scored identifiers `scored`: results with that count and, in order,
    /// the record of each scored identifier whose record the tree holds; and
    /// no failure where nothing is scored, and else none but one of the
    /// storage engine, or that of decoding the record of one of the scored
    /// identifiers.
    pub open spec fn assembled(
        store: Self,
        count: usize,
        scored: Seq<ScoredId>,
        r: Result<Results<T>, StoreError>,
    ) -> bool {
        match r {
            Ok(results) => results.count == count && hits_of(
                results.hits@,
                scored,
                store.records(),
            ),
            Err(e) => scored.len() > 0 && (e is Sled || exists|i: int|
                0 <= i < scored.len() && store.records().contains_key((#[trigger] scored[i]).id)
                    && decoding_fails::<T>(store.records()[scored[i].id], e)),
        }
    }

    /// Whether `r` is what a query may return: what `hits` makes of some
    /// matches that are in the order of results and no more than counted.
    /// So the hits are no more than counted and in the order of results,
    /// and each is a record that the tree holds under the identifier of
    /// the hit.
    pub open spec fn searched(store: Self, r: Result<Results<T>, StoreError>) -> bool {
        r matches Ok(results) ==> {
            &&& exists|scored: Seq<ScoredId>|
                ranked(scored) && scored.len() <= results.count && #[trigger] hits_of(
                    results.hits@,
                    scored,
                    store.records(),
                )
            &&& results.hits@.len() <= results.count
            &&& ranked(scores_of(results.hits@))
            &&& forall|i: int|
                0 <= i < results.hits@.len() ==> store.records().contains_key(
                    (#[trigger] results.hits@[i]).doc.id,
                ) && decodes(
                    store.records()[results.hits@[i].doc.id],
                    results.hits@[i].doc.inner,
                )
        }
    }

    /// The document with identifier `id` that `value` encodes.
    pub fn decode(id: u64, value: &[u8]) -> (r: Result<Document<T>, StoreError>)
        ensures
            r matches Ok(doc) ==> doc.id == id && decodes(value@, doc.inner),
            r matches Err(e) ==> decoding_fails::<T>(value@, e),
    {
        match T::from_bytes(value) {
            Ok(inner) => Ok(Document { id, inner }),
            Err(e) => {
                Err(e)
            },
        }
    }

    /// Find a single `Document` by its `id`. Does not use the search index.
    ///
    /// There is none where the tree holds no record under `id`; a record
    /// that the tree holds is decoded.
    pub fn find(&self, id: u64) -> (r: Result<Option<Document<T>>, StoreError>)
        ensures
            Self::found(*self, id, r),
    {
        match self.tree.get(id) {
            Ok(Some(value)) => match Self::decode(id, value.as_slice()) {
                Ok(doc) => Ok(Some(doc)),
                Err(e) => Err(e),
            },
            Ok(None) => Ok(None),
            Err(e) => Err(e),
        }
    }

    /// The hit that a scored identifier stands for: its record with its
    /// score, or none where the store holds no record under the identifier.
    pub fn hit(&self, scored: ScoredId) -> (r: Result<Option<Hit<T>>, StoreError>)
        ensures
            r matches Ok(None) ==> !self.records().contains_key(scored.id),
            r matches Ok(Some(hit)) ==> hit_of(hit, scored, self.records()),
            r matches Err(e) ==> e is Sled || (self.records().contains_key(scored.id)
                && decoding_fails::<T>(self.records()[scored.id], e)),
    {
        match self.find(scored.id) {
            Ok(Some(doc)) => Ok(Some(Hit { score: scored.score, doc })),
            Ok(None) => Ok(None),
            Err(e) => Err(e),
        }
    }

    /// Turns what a search has matched into results: for each scored
    /// identifier whose record the store holds, that record with its score,
    /// in the order given. Fails at the first record that cannot be read or
    /// decoded.
    pub fn hits(&self, count: usize, scored_ids: Vec<ScoredId>) -> (r: Result<
        Results<T>,
        StoreError,
    >)
        ensures
            Self::assembled(*self, count, scored_ids@, r),
    {
        let mut hits: Vec<Hit<T>> = Vec::new();
        let mut i: usize = 0;
        while i < scored_ids.len()
            invariant
                i <= scored_ids@.len(),
                hits_of(hits@, scored_ids@.take(i as int), self.records()),
            decreases scored_ids@.len() - i,
        {
            proof {
                let next = scored_ids@.take(i + 1);
                assert(next.drop_last() =~= scored_ids@.take(i as int));
            }
            match self.hit(scored_ids[i]) {
                Ok(Some(hit)) => {
                    hits.push(hit);
                },
                Ok(None) => {},
                Err(e) => {
                    return Err(e);
                },
            }
            i += 1;
        }
        proof {
            assert(scored_ids@.take(i as int) =~= scored_ids@);
        }
        Ok(Results { count, hits })
    }

    /// Search the datastore, using the query language provided by
    /// `tantivy`.
    ///
    /// `searcher` is a query, and the result is that of `query`; or it is
    /// a `Params` with query, collector and handler, and the result is what
    /// the handler returns. A query can always be run; a `Params` can be run
    /// where its handler takes whatever its collector returns.
    pub fn search<I: Searcher<T>>(&self, searcher: I) -> (r: Result<I::Item, I::Error>)
        requires
            searcher.runnable(),
        ensures
            call_ensures(I::search, (&searcher, self), r),
    {
        searcher.search(self)
    }

    /// Runs a query, given in the query language provided by `tantivy` or
    /// built already, and returns the documents that it matches.
    ///
    /// Whatever the engine matches, the hits come in the order of results,
    /// and each is a record that the store holds, under the identifier of
    /// the hit.
    pub fn query<Q: AsQuery + ?Sized>(&self, query: &Q) -> (r: Result<Results<T>, StoreError>)
        ensures
            Self::searched(*self, r),
            r matches Err(e) ==> e is Sled || e is Tantivy || undecodable::<T>(self.records(), e)
                || unparsed(
                query,
                self.search_index().spec_inner(),
                self.search_index().spec_default_search_fields(),
                e,
            ),
    {
        let query: QueryContainer = match query.as_query(
            self.index.inner(),
            self.index.default_search_fields(),
        ) {
            Ok(query) => query,
            Err(e) => {
                return Err(e);
            },
        };
        let (count, scored_ids) = match self.index.matches(&query) {
            Ok(found) => found,
            Err(e) => {
                return Err(e);
            },
        };
        let ghost scored = scored_ids@;
        let r = self.hits(count, scored_ids);
        proof {
            if r is Ok {
                lemma_kept(scored, self.records());
            }
        }
        r
    }
}

/// Builder for `Store`.
pub struct StoreBuilder<T: DocumentLike> {
    pub tree_builder: TreeBuilder,
    pub index_builder: IndexBuilder<T::IndexFieldsType>,
    pub marker: PhantomData<T>,
}

impl<T: DocumentLike> Default for StoreBuilder<T> {
    fn default() -> (builder: StoreBuilder<T>)
        ensures
            builder.tree_builder.db is None,
            builder.tree_builder.tree_name is None,
            builder.index_builder.index_dir is None,
            builder.index_builder.id_field_name is None,
            builder.index_builder.writer_accessor is None,
            builder.index_builder.config is None,
    {
        StoreBuilder {
            tree_builder: TreeBuilder::default(),
            index_builder: IndexBuilder::default(),
            marker: PhantomData,
        }
    }
}

impl<T: DocumentLike> StoreBuilder<T> {
    /// Shortcut method to set the `sled::Db` for the `tree_builder`.
    pub fn with_db(self, db: sled::Db) -> (builder: StoreBuilder<T>)
        ensures
            builder.tree_builder.db == Some(db),
            builder.tree_builder.tree_name == self.tree_builder.tree_name,
            builder.index_builder == self.index_builder,
    {
        StoreBuilder {
            tree_builder: self.tree_builder.with_db(db),
            index_builder: self.index_builder,
            marker: PhantomData,
        }
    }

    /// Shortcut method to set the index dir for the `index_builder`.
    pub fn with_index_dir(self, index_dir: &str) -> (builder: StoreBuilder<T>)
        ensures
            builder.tree_builder == self.tree_builder,
            builder.index_builder.index_dir matches Some(dir) && dir@ == index_dir@,
            builder.index_builder.id_field_name == self.index_builder.id_field_name,
            builder.index_builder.writer_accessor == self.index_builder.writer_accessor,
            builder.index_builder.config == self.index_builder.config,
    {
        StoreBuilder {
            tree_builder: self.tree_builder,
            index_builder: self.index_builder.with_index_dir(index_dir),
            marker: PhantomData,
        }
    }

    /// Set the `tree_builder` to be used.
    pub fn with_tree_builder(self, tree_builder: TreeBuilder) -> (builder: StoreBuilder<T>)
        ensures
            builder.tree_builder == tree_builder,
            builder.index_builder == self.index_builder,
    {
        StoreBuilder { tree_builder, index_builder: self.index_builder, marker: PhantomData }
    }

    /// Set the `index_builder` to be used.
    pub fn with_index_builder(self, index_builder: IndexBuilder<T::IndexFieldsType>) -> (builder:
        StoreBuilder<T>)
        ensures
            builder.tree_builder == self.tree_builder,
            builder.index_builder == index_builder,
    {
        StoreBuilder { tree_builder: self.tree_builder, index_builder, marker: PhantomData }
    }

    /// Whether `r` is what finishing `builder` may come to, with
    /// `tree_defaults` and `index_defaults` where the builder leaves the
    /// config open. Where the database, the name of the tree or the
    /// directory of the index is set by neither, or the name of the
    /// identifier field is no name of a field, the failure says so, the
    /// first of these that holds; but that once the tree is to be opened,
    /// the storage engine may fail before the index is looked at. No other
    /// failure comes but one of the two engines, or that of the record type
    /// where it declares its fields. A store
    /// that is returned has an index that was handed nothing yet, with the
    /// identifier field first, under the name that was set, and with the
    /// default search fields that the record type gives.
    pub open spec fn finished(
        builder: Self,
        tree_defaults: TreeBuilder,
        index_defaults: IndexBuilder<T::IndexFieldsType>,
        r: Result<Store<T>, StoreError>,
    ) -> bool {
        let db = or_else(builder.tree_builder.db, tree_defaults.db);
        let tree_name = or_else(builder.tree_builder.tree_name, tree_defaults.tree_name);
        let index_dir = or_else(builder.index_builder.index_dir, index_defaults.index_dir);
        let id_field_name = or_else(
            builder.index_builder.id_field_name,
            index_defaults.id_field_name,
        );
        &&& db is None ==> (r matches Err(StoreError::Config(text)) && text@ == "`db` not set"@)
        &&& db is Some && tree_name is None ==> (r matches Err(StoreError::Config(text)) && text@
            == "`tree_name` not set"@)
        &&& db is Some && tree_name is Some && index_dir is None ==> (r matches Err(
            StoreError::Sled(_),
        ) || (r matches Err(StoreError::Config(text)) && text@ == "`index_dir` not set"@))
        &&& db is Some && tree_name is Some && index_dir is Some && (id_field_name matches Some(
            name,
        ) && !is_field_name(name@)) ==> (r matches Err(StoreError::Sled(_)) || (r matches Err(
            StoreError::Config(text),
        ) && text@ == "`id_field_name` not valid"@))
        &&& r matches Err(e) ==> {
            ||| db is None && e is Config
            ||| db is Some && tree_name is None && e is Config
            ||| db is Some && tree_name is Some && e is Sled
            ||| db is Some && tree_name is Some && finish_fails::<T>(index_dir, id_field_name, e)
        }
        &&& r matches Ok(store) ==> {
            &&& db is Some && tree_name is Some && index_dir is Some
            &&& declares::<T>(store.search_index().spec_fields())
            &&& store.staged() == no_ops()
            &&& store.search_index().id_field_number() == 0
            &&& store.search_index().spec_id_field_name() == (match id_field_name {
                Some(name) => name@,
                None => DEFAULT_ID_FIELD_NAME@,
            })
            &&& default_fields_of::<T>(
                store.search_index().spec_fields(),
                store.search_index().spec_default_search_fields(),
            )
        }
    }

    /// Convert into a finished `Store`, with what the record type sets of
    /// the tree's and the index's config where this builder leaves it open:
    /// the result is that of `finish_with` for the builders that the record
    /// type gives.
    pub fn finish(self) -> (r: Result<Store<T>, StoreError>)
        ensures
            exists|tree_defaults: TreeBuilder, index_defaults: IndexBuilder<T::IndexFieldsType>|
                call_ensures(T::tree_builder, (), tree_defaults) && call_ensures(
                    T::index_builder,
                    (),
                    index_defaults,
                ) && #[trigger] Self::finished(self, tree_defaults, index_defaults, r),
            r matches Ok(store) ==> store.staged() == no_ops(),
    {
        let tree_defaults: TreeBuilder = T::tree_builder();
        let index_defaults: IndexBuilder<T::IndexFieldsType> = T::index_builder();
        let r = self.finish_with(tree_defaults, index_defaults);
        proof {
            assert(Self::finished(self, tree_defaults, index_defaults, r));
        }
        r
    }

    /// Convert into a finished `Store`, with `tree_defaults` and
    /// `index_defaults` where this builder leaves the config open.
    ///
    /// The tree is opened first, then the index. Fails where the database,
    /// the name of the tree or the directory of the index is set by
    /// neither, in this order; and where an engine fails or the record type
    /// cannot declare its fields.
    pub fn finish_with(
        self,
        tree_defaults: TreeBuilder,
        index_defaults: IndexBuilder<T::IndexFieldsType>,
    ) -> (r: Result<Store<T>, StoreError>)
        ensures
            Self::finished(self, tree_defaults, index_defaults, r),
    {
        let tree: RecordTree = match self.tree_builder.merge(tree_defaults).finish() {
            Ok(tree) => tree,
            Err(e) => {
                return Err(e);
            },
        };
        let index: SearchIndex<T::IndexFieldsType> = match self.index_builder.merge(
            index_defaults,
        ).finish::<T>() {
            Ok(index) => index,
            Err(e) => {
                return Err(e);
            },
        };
        Ok(Store { tree, marker: PhantomData, index })
    }
}

} // verus!

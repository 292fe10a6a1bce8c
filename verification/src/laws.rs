//! What holds of a store across its operations.

use crate::db::key_of;
use crate::err::StoreError;
use crate::search::scored_ids::ScoredId;
use crate::search::log::{
    carriers, carries, indexed, lemma_indexed_push, lemma_stamped_carries, lemma_without_carriers,
    no_ops, stamped, without, IndexOp,
};
use crate::search::Results;
use crate::store::model::{
    all_of, hit_of, ids_of, inners_of, kept, lemma_kept, projects, round_trips, tail,
};
use crate::store::consistency::{
    consistent, id_set, ids_in, lemma_adds_ids, lemma_deletes_ids, lemma_in_keys, lemma_removed_ids,
    lemma_replaces_ids, lemma_stored_ids, reserves, single_stamped,
};
use crate::store::{Document, DocumentLike, Store};
use vstd::prelude::*;

verus! {

/// A record that was created is found again under the identifier that
/// `create` returned, as it was created: where the store finds anything,
/// it finds that record.
pub proof fn law_find_after_create<T: DocumentLike>(
    before: Store<T>,
    after: Store<T>,
    record: T,
    id: u64,
    r: Result<Option<Document<T>>, StoreError>,
)
    requires
        round_trips::<T>(),
        Store::created(before, after, seq![record], seq![id]),
        Store::found(after, id, r),
        r is Ok,
    ensures
        r == Ok::<Option<Document<T>>, StoreError>(Some(Document { id, inner: record })),
{
    let ids = seq![id];
    assert(ids[0] == id);
}

/// The identifiers that `create_multi` returns are as many as the records
/// given, no two of them are the same, and each is above the one before.
pub proof fn law_created_identifiers_ascend<T: DocumentLike>(
    before: Store<T>,
    after: Store<T>,
    inners: Seq<T>,
    ids: Seq<u64>,
)
    requires
        Store::created(before, after, inners, ids),
    ensures
        ids.len() == inners.len(),
        forall|i: int, j: int| 0 <= i < j < ids.len() ==> ids[i] < ids[j],
        forall|i: int, j: int|
            0 <= i < ids.len() && 0 <= j < ids.len() && i != j ==> ids[i] != ids[j],
{
}

/// After a record was created, results that are assembled from matches
/// which report its identifier include a hit for it, and the record of
/// that hit is the record created.
pub proof fn law_created_record_is_hit<T: DocumentLike>(
    before: Store<T>,
    after: Store<T>,
    record: T,
    id: u64,
    count: usize,
    scored: Seq<ScoredId>,
    results: Results<T>,
)
    requires
        round_trips::<T>(),
        Store::created(before, after, seq![record], seq![id]),
        Store::assembled(after, count, scored, Ok(results)),
        exists|i: int| 0 <= i < scored.len() && (#[trigger] scored[i]).id == id,
    ensures
        exists|i: int|
            0 <= i < results.hits@.len() && (#[trigger] results.hits@[i]).doc == (Document {
                id,
                inner: record,
            }),
{
    let ids = seq![id];
    assert(ids[0] == id);
    let records = after.records();
    let i = choose|i: int| 0 <= i < scored.len() && (#[trigger] scored[i]).id == id;
    lemma_kept(scored, records);
    let k = kept(scored, records);
    let p = choose|p: int| 0 <= p < k.len() && k[p] == scored[i];
    assert(hit_of(results.hits@[p], k[p], records));
}

/// After a document was updated, every hit of assembled results that
/// carries its identifier carries the record it was updated to, and results
/// that are assembled from matches which report the identifier include
/// such a hit.
pub proof fn law_updated_record_is_hit<T: DocumentLike>(
    before: Store<T>,
    after: Store<T>,
    doc: Document<T>,
    count: usize,
    scored: Seq<ScoredId>,
    results: Results<T>,
)
    requires
        round_trips::<T>(),
        Store::updated(before, after, seq![doc]),
        Store::assembled(after, count, scored, Ok(results)),
    ensures
        forall|i: int|
            0 <= i < results.hits@.len() && (#[trigger] results.hits@[i]).doc.id == doc.id
                ==> results.hits@[i].doc.inner == doc.inner,
        (exists|i: int| 0 <= i < scored.len() && (#[trigger] scored[i]).id == doc.id) ==> exists|
            i: int,
        |
            0 <= i < results.hits@.len() && (#[trigger] results.hits@[i]).doc == doc,
{
    let ids = ids_of(seq![doc]);
    assert(ids[0] == doc.id);
    let records = after.records();
    lemma_kept(scored, records);
    let k = kept(scored, records);
    if exists|i: int| 0 <= i < scored.len() && (#[trigger] scored[i]).id == doc.id {
        let i = choose|i: int| 0 <= i < scored.len() && (#[trigger] scored[i]).id == doc.id;
        let p = choose|p: int| 0 <= p < k.len() && k[p] == scored[i];
        assert(hit_of(results.hits@[p], k[p], records));
    }
}

/// After a record was deleted, the store finds nothing under its
/// identifier.
pub proof fn law_find_after_delete<T: DocumentLike>(
    before: Store<T>,
    after: Store<T>,
    id: u64,
    r: Result<Option<Document<T>>, StoreError>,
)
    requires
        Store::deleted(before, after, seq![id]),
        Store::found(after, id, r),
        r is Ok,
    ensures
        r == Ok::<Option<Document<T>>, StoreError>(None),
{
    let ids = seq![id];
    assert(key_of(ids[0]) == key_of(id));
}

/// After a record was deleted, no search returns a hit for its
/// identifier, whatever the engine matches.
pub proof fn law_no_hit_after_delete<T: DocumentLike>(
    before: Store<T>,
    after: Store<T>,
    id: u64,
    results: Results<T>,
)
    requires
        Store::deleted(before, after, seq![id]),
        Store::searched(after, Ok(results)),
    ensures
        forall|i: int| 0 <= i < results.hits@.len() ==> (#[trigger] results.hits@[i]).doc.id != id,
{
    let ids = seq![id];
    assert(key_of(ids[0]) == key_of(id));
}

/// After a record was created, the last document that the index was handed
/// and has committed is the index document of the record, stamped with its
/// identifier.
pub proof fn law_index_after_create<T: DocumentLike>(
    before: Store<T>,
    after: Store<T>,
    record: T,
    id: u64,
)
    requires
        Store::created(before, after, seq![record], seq![id]),
    ensures
        ({
            let field = before.search_index().id_field_number();
            let docs = indexed(after.committed());
            &&& docs.len() > 0
            &&& carries(docs.last(), field, id)
            &&& exists|base: Map<u32, Seq<u64>>|
                #![trigger stamped(base, field, id)]
                projects(record, before.search_index().spec_fields(), base) && docs.last()
                    == stamped(base, field, id)
        }),
{
    let field = before.search_index().id_field_number();
    let fields = before.search_index().spec_fields();
    let base_log = before.committed() + before.staged();
    let log = after.committed();
    let ops = tail(log, base_log.len());
    let numbers = ops[0]->Add_0;
    let base = choose|base: Map<u32, Seq<u64>>|
        #![trigger stamped(base, field, id)]
        projects(record, fields, base) && numbers == stamped(base, field, id);
    lemma_stamped_carries(base, field, id);
}

/// After a document was updated, the index was handed and has committed
/// exactly one document that is stamped with its identifier: the index
/// document of the record it was updated to.
pub proof fn law_index_after_update<T: DocumentLike>(
    before: Store<T>,
    after: Store<T>,
    doc: Document<T>,
)
    requires
        Store::updated(before, after, seq![doc]),
    ensures
        ({
            let field = before.search_index().id_field_number();
            exists|base: Map<u32, Seq<u64>>|
                #![trigger stamped(base, field, doc.id)]
                projects(doc.inner, before.search_index().spec_fields(), base) && carriers(
                    indexed(after.committed()),
                    field,
                    doc.id,
                ) == seq![stamped(base, field, doc.id)]
        }),
{
    let field = before.search_index().id_field_number();
    let fields = before.search_index().spec_fields();
    let base_log = before.committed() + before.staged();
    let log = after.committed();
    let ops = tail(log, base_log.len());
    let ids = ids_of(seq![doc]);
    assert(ops[2 * 0int] == (IndexOp::Delete { field, value: ids[0] }));
    let numbers = ops[1]->Add_0;
    let base = choose|base: Map<u32, Seq<u64>>|
        #![trigger stamped(base, field, doc.id)]
        projects(doc.inner, fields, base) && numbers == stamped(base, field, doc.id);
    assert(log =~= base_log.push(ops[0]).push(ops[1]));
    lemma_indexed_push(base_log, ops[0]);
    lemma_indexed_push(base_log.push(ops[0]), ops[1]);
    let cleared = without(indexed(base_log), field, doc.id);
    lemma_without_carriers(indexed(base_log), field, doc.id);
    lemma_stamped_carries(base, field, doc.id);
    assert(cleared.push(numbers).drop_last() =~= cleared);
}

/// After a record was deleted, the index holds no document that is
/// stamped with its identifier, of those it was handed and has committed.
pub proof fn law_index_after_delete<T: DocumentLike>(before: Store<T>, after: Store<T>, id: u64)
    requires
        Store::deleted(before, after, seq![id]),
    ensures
        carriers(indexed(after.committed()), before.search_index().id_field_number(), id)
            == Seq::<Map<u32, Seq<u64>>>::empty(),
{
    let field = before.search_index().id_field_number();
    let base_log = before.committed() + before.staged();
    let log = after.committed();
    let ops = tail(log, base_log.len());
    lemma_indexed_push(base_log, ops[0]);
    lemma_without_carriers(indexed(base_log), field, id);
}

/// Where every record is held under an identifier that the database has
/// issued, creating records overwrites none: the identifiers returned were
/// held by no record, every record that was held is held as it was, and
/// again every record is held under an identifier that the database has
/// issued.
pub proof fn law_create_overwrites_nothing<T: DocumentLike>(
    before: Store<T>,
    after: Store<T>,
    inners: Seq<T>,
    ids: Seq<u64>,
)
    requires
        Store::created(before, after, inners, ids),
        before.issued(),
    ensures
        forall|i: int| 0 <= i < ids.len() ==> !before.records().contains_key(#[trigger] ids[i]),
        forall|id: u64| #[trigger]
            before.records().contains_key(id) ==> after.records().contains_key(id)
                && after.records()[id] == before.records()[id],
        after.issued(),
{
    assert forall|i: int| 0 <= i < ids.len() implies !before.records().contains_key(
        #[trigger] ids[i],
    ) by {
    }
    assert forall|id: u64| #[trigger]
        after.records().contains_key(id) implies after.issued_ids().contains(id) by {
        lemma_in_keys(ids, id);
        if !(ids.contains(id)) {
            assert(before.records().contains_key(id));
        }
    }
}

/// A store whose tree holds no record holds every record under an
/// identifier that the database has issued.
pub proof fn law_empty_store_is_issued<T: DocumentLike>(store: Store<T>)
    requires
        forall|id: u64| !store.records().contains_key(id),
    ensures
        store.issued(),
{
}

/// Updating documents whose identifiers the tree holds keeps every record
/// under an identifier that the database has issued.
pub proof fn law_update_keeps_issued<T: DocumentLike>(
    before: Store<T>,
    after: Store<T>,
    docs: Seq<Document<T>>,
)
    requires
        before.issued(),
        Store::updated(before, after, docs),
        forall|i: int|
            0 <= i < docs.len() ==> before.records().contains_key((#[trigger] docs[i]).id),
    ensures
        after.issued(),
{
    assert forall|id: u64| #[trigger]
        after.records().contains_key(id) implies after.issued_ids().contains(id) by {
        lemma_in_keys(ids_of(docs), id);
        if ids_of(docs).contains(id) {
            let i = choose|i: int| 0 <= i < docs.len() && ids_of(docs)[i] == id;
            assert(before.records().contains_key(docs[i].id));
        } else {
            assert(before.records().contains_key(id));
        }
    }
}

/// Deleting records keeps every record under an identifier that the
/// database has issued.
pub proof fn law_delete_keeps_issued<T: DocumentLike>(
    before: Store<T>,
    after: Store<T>,
    ids: Seq<u64>,
)
    requires
        before.issued(),
        Store::deleted(before, after, ids),
    ensures
        after.issued(),
{
    assert forall|id: u64| #[trigger]
        after.records().contains_key(id) implies after.issued_ids().contains(id) by {
        assert(before.records().contains_key(id));
    }
}

/// Creating records keeps tree and index in agreement, where the record
/// type leaves the identifier field to the store.
pub proof fn law_create_keeps_consistent<T: DocumentLike>(
    before: Store<T>,
    after: Store<T>,
    inners: Seq<T>,
    ids: Seq<u64>,
)
    requires
        Store::created(before, after, inners, ids),
        consistent(before),
        reserves::<T>(before.search_index().spec_fields(), before.search_index().id_field_number()),
    ensures
        consistent(after),
{
    let field = before.search_index().id_field_number();
    let log = before.committed();
    let ops = tail(after.committed(), log.len());
    assert(after.committed() =~= log + ops);
    lemma_adds_ids(log, ops, ids, inners, before.search_index().spec_fields(), field);
    lemma_stored_ids(before.entries(), after.entries(), ids, inners);
}

/// Updating documents keeps tree and index in agreement, where the record
/// type leaves the identifier field to the store.
pub proof fn law_update_keeps_consistent<T: DocumentLike>(
    before: Store<T>,
    after: Store<T>,
    docs: Seq<Document<T>>,
)
    requires
        Store::updated(before, after, docs),
        consistent(before),
        reserves::<T>(before.search_index().spec_fields(), before.search_index().id_field_number()),
    ensures
        consistent(after),
{
    let field = before.search_index().id_field_number();
    let log = before.committed();
    let ops = tail(after.committed(), log.len());
    assert(after.committed() =~= log + ops);
    lemma_replaces_ids(
        log,
        ops,
        ids_of(docs),
        inners_of(docs),
        before.search_index().spec_fields(),
        field,
    );
    lemma_stored_ids(before.entries(), after.entries(), ids_of(docs), inners_of(docs));
}

/// Deleting records keeps tree and index in agreement.
pub proof fn law_delete_keeps_consistent<T: DocumentLike>(
    before: Store<T>,
    after: Store<T>,
    ids: Seq<u64>,
)
    requires
        Store::deleted(before, after, ids),
        consistent(before),
    ensures
        consistent(after),
{
    let field = before.search_index().id_field_number();
    let log = before.committed();
    let ops = tail(after.committed(), log.len());
    assert(after.committed() =~= log + ops);
    lemma_deletes_ids(log, ops, ids, field);
    lemma_removed_ids(before.entries(), after.entries(), ids);
}

/// Indexing all documents again brings tree and index into agreement,
/// where the index held documents for no identifiers but those of the tree
/// and the record type leaves the identifier field to the store.
pub proof fn law_index_all_restores_agreement<T: DocumentLike>(
    before: Store<T>,
    after: Store<T>,
    docs: Seq<Document<T>>,
)
    requires
        all_of(docs, before.entries()),
        Store::reindexed(before, after, docs),
        before.staged() == no_ops(),
        single_stamped(indexed(before.committed()), before.search_index().id_field_number()),
        ids_in(indexed(before.committed()), before.search_index().id_field_number()).subset_of(
            before.records().dom(),
        ),
        reserves::<T>(before.search_index().spec_fields(), before.search_index().id_field_number()),
    ensures
        consistent(after),
{
    let field = before.search_index().id_field_number();
    let log = before.committed();
    let ops = tail(after.committed(), log.len());
    let ids = ids_of(docs);
    assert(after.committed() =~= log + ops);
    lemma_replaces_ids(log, ops, ids, inners_of(docs), before.search_index().spec_fields(), field);
    assert forall|id: u64| before.records().dom().contains(id) <==> id_set(ids).contains(id) by {
        if before.records().dom().contains(id) {
            let i = choose|i: int| 0 <= i < docs.len() && (#[trigger] docs[i]).id == id;
            assert(ids[i] == id);
        }
    }
}

} // verus!

//! When tree and index agree: the tree holds a record under just those
//! identifiers that a document of the index is stamped with.

use crate::db::{key_of, lemma_key_of, records_of};
use crate::search::log::{
    carries, indexed, lemma_indexed_push, no_ops, stamped, values_under, without, IndexOp,
};
use crate::store::model::{
    adds, adds_all, deletes_all, keys_of, projects, removed, replaces_all, stored,
};
use crate::store::{DocumentLike, Store};
use vstd::prelude::*;

verus! {

/// The identifiers that the documents `docs` are stamped with: the values
/// they hold under `field`.
pub open spec fn ids_in(docs: Seq<Map<u32, Seq<u64>>>, field: u32) -> Set<u64> {
    Set::new(
        |id: u64| exists|i: int| 0 <= i < docs.len() && carries(#[trigger] docs[i], field, id),
    )
}

/// Whether each document of `docs` holds exactly one value under `field`.
pub open spec fn single_stamped(docs: Seq<Map<u32, Seq<u64>>>, field: u32) -> bool {
    forall|i: int| 0 <= i < docs.len() ==> values_under(#[trigger] docs[i], field).len() == 1
}

/// The identifiers of `ids`, as a set.
pub open spec fn id_set(ids: Seq<u64>) -> Set<u64> {
    Set::new(|id: u64| ids.contains(id))
}

/// Whether the record type leaves the identifier field to the store: no
/// index document of a record holds a value under `field`.
pub open spec fn reserves<T: DocumentLike>(fields: T::IndexFieldsType, field: u32) -> bool {
    forall|record: T, base: Map<u32, Seq<u64>>| #[trigger]
        projects(record, fields, base) ==> values_under(base, field).len() == 0
}

/// Whether tree and index of `store` agree: nothing is staged, every
/// document of the index is stamped once, and the tree holds a record under
/// just those identifiers that a document of the index is stamped with.
pub open spec fn consistent<T: DocumentLike>(store: Store<T>) -> bool {
    let field = store.search_index().id_field_number();
    let docs = indexed(store.committed());
    &&& store.staged() == no_ops()
    &&& single_stamped(docs, field)
    &&& store.records().dom() =~= ids_in(docs, field)
}

/// A document that is added brings its one stamp, and nothing else
/// changes.
pub proof fn lemma_push_ids(
    docs: Seq<Map<u32, Seq<u64>>>,
    doc: Map<u32, Seq<u64>>,
    field: u32,
    id: u64,
)
    requires
        values_under(doc, field) == seq![id],
    ensures
        ids_in(docs.push(doc), field) =~= ids_in(docs, field).insert(id),
        single_stamped(docs, field) ==> single_stamped(docs.push(doc), field),
{
    let more = docs.push(doc);
    assert(seq![id][0] == id);
    assert forall|x: u64| ids_in(more, field).contains(x) <==> ids_in(docs, field).insert(
        id,
    ).contains(x) by {
        if ids_in(docs, field).contains(x) {
            let i = choose|i: int| 0 <= i < docs.len() && carries(#[trigger] docs[i], field, x);
            assert(carries(more[i], field, x));
        }
        if x == id {
            assert(carries(more[docs.len() as int], field, x));
        }
    }
}

/// What is left of documents without a value: every document that does not
/// hold it, and no other.
pub proof fn lemma_without(docs: Seq<Map<u32, Seq<u64>>>, field: u32, id: u64)
    ensures
        forall|i: int|
            0 <= i < without(docs, field, id).len() ==> !carries(
                #[trigger] without(docs, field, id)[i],
                field,
                id,
            ) && docs.contains(without(docs, field, id)[i]),
        forall|i: int|
            0 <= i < docs.len() && !carries(#[trigger] docs[i], field, id) ==> without(
                docs,
                field,
                id,
            ).contains(docs[i]),
    decreases docs.len(),
{
    if docs.len() > 0 {
        let front = docs.drop_last();
        lemma_without(front, field, id);
        let w = without(docs, field, id);
        let wf = without(front, field, id);
        assert forall|i: int| 0 <= i < docs.len() && !carries(
            #[trigger] docs[i],
            field,
            id,
        ) implies w.contains(docs[i]) by {
            if i < front.len() {
                let j = choose|j: int| 0 <= j < wf.len() && wf[j] == front[i];
                assert(w[j] == docs[i]);
            } else {
                assert(w[w.len() - 1] == docs[i]);
            }
        }
    }
}

/// Deleting what is stamped with an identifier takes that identifier away,
/// and nothing else changes.
pub proof fn lemma_without_ids(docs: Seq<Map<u32, Seq<u64>>>, field: u32, id: u64)
    requires
        single_stamped(docs, field),
    ensures
        single_stamped(without(docs, field, id), field),
        ids_in(without(docs, field, id), field) =~= ids_in(docs, field).remove(id),
{
    lemma_without(docs, field, id);
}

/// The index document of a record that leaves the identifier field alone,
/// once stamped, holds the stamp and nothing else under the field.
pub proof fn lemma_adds_one_stamp<T: DocumentLike>(
    op: IndexOp,
    record: T,
    fields: T::IndexFieldsType,
    field: u32,
    id: u64,
)
    requires
        adds(op, record, fields, field, id),
        reserves::<T>(fields, field),
    ensures
        op is Add,
        values_under(op->Add_0, field) == seq![id],
{
    let numbers = op->Add_0;
    let base = choose|base: Map<u32, Seq<u64>>|
        #![trigger stamped(base, field, id)]
        projects(record, fields, base) && numbers == stamped(base, field, id);
}

/// Additions bring their identifiers into the index.
pub proof fn lemma_adds_ids<T: DocumentLike>(
    log: Seq<IndexOp>,
    ops: Seq<IndexOp>,
    ids: Seq<u64>,
    inners: Seq<T>,
    fields: T::IndexFieldsType,
    field: u32,
)
    requires
        adds_all(ops, ids, inners, fields, field),
        reserves::<T>(fields, field),
        single_stamped(indexed(log), field),
    ensures
        single_stamped(indexed(log + ops), field),
        ids_in(indexed(log + ops), field) =~= ids_in(indexed(log), field) + id_set(ids),
    decreases ops.len(),
{
    if !(ops.len() == 0) {
        let n = ops.len() - 1;
        let front = ops.drop_last();
        let front_ids = ids.drop_last();
        lemma_adds_ids(log, front, front_ids, inners.drop_last(), fields, field);
        lemma_adds_one_stamp(ops[n], inners[n], fields, field, ids[n]);
        assert(log + ops =~= (log + front).push(ops[n]));
        lemma_indexed_push(log + front, ops[n]);
        lemma_push_ids(indexed(log + front), ops[n]->Add_0, field, ids[n]);
        lemma_id_set_push(ids);
    }
}

/// Replacements bring their identifiers into the index.
pub proof fn lemma_replaces_ids<T: DocumentLike>(
    log: Seq<IndexOp>,
    ops: Seq<IndexOp>,
    ids: Seq<u64>,
    inners: Seq<T>,
    fields: T::IndexFieldsType,
    field: u32,
)
    requires
        replaces_all(ops, ids, inners, fields, field),
        reserves::<T>(fields, field),
        single_stamped(indexed(log), field),
    ensures
        single_stamped(indexed(log + ops), field),
        ids_in(indexed(log + ops), field) =~= ids_in(indexed(log), field) + id_set(ids),
    decreases ids.len(),
{
    if !(ids.len() == 0) {
        let n = ids.len() - 1;
        let front = ops.subrange(0, 2 * n);
        let front_ids = ids.drop_last();
        lemma_replaces_ids(log, front, front_ids, inners.drop_last(), fields, field);
        lemma_adds_one_stamp(ops[2 * n + 1], inners[n], fields, field, ids[n]);
        let cleared = (log + front).push(ops[2 * n]);
        assert(log + ops =~= cleared.push(ops[2 * n + 1]));
        lemma_indexed_push(log + front, ops[2 * n]);
        lemma_indexed_push(cleared, ops[2 * n + 1]);
        lemma_without_ids(indexed(log + front), field, ids[n]);
        lemma_push_ids(indexed(cleared), ops[2 * n + 1]->Add_0, field, ids[n]);
        lemma_id_set_push(ids);
    }
}

/// Deletions take their identifiers out of the index.
pub proof fn lemma_deletes_ids(log: Seq<IndexOp>, ops: Seq<IndexOp>, ids: Seq<u64>, field: u32)
    requires
        deletes_all(ops, ids, field),
        single_stamped(indexed(log), field),
    ensures
        single_stamped(indexed(log + ops), field),
        ids_in(indexed(log + ops), field) =~= ids_in(indexed(log), field) - id_set(ids),
    decreases ops.len(),
{
    if !(ops.len() == 0) {
        let n = ops.len() - 1;
        let front = ops.drop_last();
        let front_ids = ids.drop_last();
        lemma_deletes_ids(log, front, front_ids, field);
        assert(log + ops =~= (log + front).push(ops[n]));
        lemma_indexed_push(log + front, ops[n]);
        lemma_without_ids(indexed(log + front), field, ids[n]);
        lemma_id_set_push(ids);
    }
}

/// The identifiers of a sequence are those of its front and its last.
pub proof fn lemma_id_set_push(ids: Seq<u64>)
    requires
        ids.len() > 0,
    ensures
        id_set(ids) =~= id_set(ids.drop_last()).insert(ids.last()),
{
    let front = ids.drop_last();
    assert forall|x: u64| id_set(ids).contains(x) <==> id_set(front).insert(ids.last()).contains(
        x,
    ) by {
        if ids.contains(x) {
            let i = choose|i: int| 0 <= i < ids.len() && ids[i] == x;
            if i < front.len() {
                assert(front[i] == x);
            }
        }
    }
}

/// A tree that stores records holds, besides the identifiers it held, the
/// identifiers of those records.
pub proof fn lemma_stored_ids<T: DocumentLike>(
    before: Map<Seq<u8>, Seq<u8>>,
    after: Map<Seq<u8>, Seq<u8>>,
    ids: Seq<u64>,
    inners: Seq<T>,
)
    requires
        stored(before, after, ids, inners),
    ensures
        records_of(after).dom() =~= records_of(before).dom() + id_set(ids),
{
    assert forall|x: u64| records_of(after).dom().contains(x) <==> (records_of(before).dom()
        + id_set(ids)).contains(x) by {
        lemma_in_keys(ids, x);
    }
}

/// A tree that removes records holds the identifiers it held but for the
/// identifiers of those records.
pub proof fn lemma_removed_ids(
    before: Map<Seq<u8>, Seq<u8>>,
    after: Map<Seq<u8>, Seq<u8>>,
    ids: Seq<u64>,
)
    requires
        removed(before, after, ids),
    ensures
        records_of(after).dom() =~= records_of(before).dom() - id_set(ids),
{
    assert forall|x: u64| records_of(after).dom().contains(x) <==> (records_of(before).dom()
        - id_set(ids)).contains(x) by {
        lemma_in_keys(ids, x);
        assert(after.contains_key(key_of(x)) <==> before.contains_key(key_of(x)) && !keys_of(
            ids,
        ).contains(key_of(x)));
    }
}

/// The key of an identifier is among the keys of identifiers just where
/// the identifier is among them.
pub proof fn lemma_in_keys(ids: Seq<u64>, id: u64)
    ensures
        keys_of(ids).contains(key_of(id)) <==> ids.contains(id),
{
    if keys_of(ids).contains(key_of(id)) {
        let i = choose|i: int| 0 <= i < ids.len() && key_of(#[trigger] ids[i]) == key_of(id);
        lemma_key_of(ids[i], id);
    }
}

} // verus!

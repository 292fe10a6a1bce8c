//! The vocabulary of the store's contracts: what it means that records are
//! stored, removed, found and assembled into results.

use crate::db::{apply_writes, key_before, key_of, lemma_key_of, KEY_LEN};
use crate::err::StoreError;
use crate::search::log::{stamped, IndexOp};
use crate::search::scored_ids::{ranked, ranks_before};
use crate::search::{doc_numbers, AsQuery, Hit, QueryContainer, ScoredId};
use crate::store::{Document, DocumentLike};
use tantivy::schema::Field;
use tantivy::TantivyDocument;
use vstd::prelude::*;

verus! {

/// Whether `bytes` may come out where `record` is encoded.
pub open spec fn encodes<T: DocumentLike>(record: T, bytes: Seq<u8>) -> bool {
    exists|v: Vec<u8>| #[trigger] v@ == bytes && call_ensures(T::to_bytes, (&record,), Ok(v))
}

/// Whether `record` may come out where `bytes` are decoded.
pub open spec fn decodes<T: DocumentLike>(bytes: Seq<u8>, record: T) -> bool {
    exists|s: &[u8]| #[trigger] s@ == bytes && call_ensures(T::from_bytes, (s,), Ok(record))
}

/// Whether `e` may come out where `record` is encoded.
pub open spec fn encoding_fails<T: DocumentLike>(record: T, e: StoreError) -> bool {
    call_ensures(T::to_bytes, (&record,), Err::<Vec<u8>, StoreError>(e))
}

/// Whether `e` may come out where `bytes` are decoded.
pub open spec fn decoding_fails<T: DocumentLike>(bytes: Seq<u8>, e: StoreError) -> bool {
    exists|s: &[u8]| #[trigger]
        s@ == bytes && call_ensures(T::from_bytes, (s,), Err::<T, StoreError>(e))
}

/// Whether `e` may come out where the index document of `record` is asked
/// for.
pub open spec fn projection_fails<T: DocumentLike>(
    record: T,
    fields: T::IndexFieldsType,
    e: StoreError,
) -> bool {
    call_ensures(T::as_index_document, (&record, &fields), Err::<TantivyDocument, StoreError>(e))
}

/// Whether `e` is the failure with which the record type refuses one of
/// `records`: its encoding or its index document.
pub open spec fn refused<T: DocumentLike>(
    records: Seq<T>,
    fields: T::IndexFieldsType,
    e: StoreError,
) -> bool {
    exists|i: int|
        0 <= i < records.len() && (encoding_fails(#[trigger] records[i], e) || projection_fails(
            records[i],
            fields,
            e,
        ))
}

/// Whether `e` is the failure with which the record type refuses to decode
/// one of the records of `records`.
pub open spec fn undecodable<T: DocumentLike>(records: Map<u64, Seq<u8>>, e: StoreError) -> bool {
    exists|id: u64| #[trigger] records.contains_key(id) && decoding_fails::<T>(records[id], e)
}

/// Whether `e` is a failure of reading all records of `entries`: that of
/// a key that is no identifier's, or that of decoding one of the values.
pub open spec fn unreadable<T: DocumentLike>(
    entries: Map<Seq<u8>, Seq<u8>>,
    e: StoreError,
) -> bool {
    ||| (e matches StoreError::Custom(text) && text@ == "could not convert slice to array"@
        && exists|k: Seq<u8>| #[trigger] entries.contains_key(k) && k.len() != KEY_LEN)
    ||| exists|k: Seq<u8>| #[trigger] entries.contains_key(k) && decoding_fails::<T>(entries[k], e)
}

/// Whether `e` may come out where `query` is asked for its query over the
/// index `index` with the default search fields `fields`.
pub open spec fn unparsed<Q: AsQuery + ?Sized>(
    query: &Q,
    index: tantivy::Index,
    fields: Seq<Field>,
    e: StoreError,
) -> bool {
    exists|s: &[Field]| #[trigger]
        s@ == fields && call_ensures(
            Q::as_query,
            (query, &index, s),
            Err::<QueryContainer, StoreError>(e),
        )
}

/// Whether a record that is encoded and decoded again is the same record.
pub open spec fn round_trips<T: DocumentLike>() -> bool {
    forall|record: T, bytes: Seq<u8>, back: T|
        #![trigger encodes(record, bytes), decodes(bytes, back)]
        encodes(record, bytes) && decodes(bytes, back) ==> back == record
}

/// The scored identifiers of `scored` whose record `records` holds, in order.
pub open spec fn kept(scored: Seq<ScoredId>, records: Map<u64, Seq<u8>>) -> Seq<ScoredId>
    decreases scored.len(),
{
    if scored.len() == 0 {
        Seq::empty()
    } else if records.contains_key(scored.last().id) {
        kept(scored.drop_last(), records).push(scored.last())
    } else {
        kept(scored.drop_last(), records)
    }
}

/// Whether `hit` is the record of `records` that `scored` points at, with
/// the score given there.
pub open spec fn hit_of<T: DocumentLike>(
    hit: Hit<T>,
    scored: ScoredId,
    records: Map<u64, Seq<u8>>,
) -> bool {
    &&& hit.score == scored.score
    &&& hit.doc.id == scored.id
    &&& records.contains_key(scored.id)
    &&& decodes(records[scored.id], hit.doc.inner)
}

/// Whether `hits` are the records of `records` that `scored` points at, one
/// for each scored identifier whose record is held, in the same order.
pub open spec fn hits_of<T: DocumentLike>(
    hits: Seq<Hit<T>>,
    scored: Seq<ScoredId>,
    records: Map<u64, Seq<u8>>,
) -> bool {
    &&& hits.len() == kept(scored, records).len()
    &&& forall|i: int|
        0 <= i < hits.len() ==> hit_of(#[trigger] hits[i], kept(scored, records)[i], records)
}

/// The score and identifier of each hit, in order.
pub open spec fn scores_of<T>(hits: Seq<Hit<T>>) -> Seq<ScoredId> {
    Seq::new(hits.len(), |i: int| ScoredId { id: hits[i].doc.id, score: hits[i].score })
}

/// What is kept of scored identifiers is among them, in their order.
pub proof fn lemma_kept(scored: Seq<ScoredId>, records: Map<u64, Seq<u8>>)
    ensures
        kept(scored, records).len() <= scored.len(),
        forall|i: int|
            0 <= i < kept(scored, records).len() ==> records.contains_key(
                #[trigger] kept(scored, records)[i].id,
            ) && scored.contains(kept(scored, records)[i]),
        forall|i: int|
            0 <= i < scored.len() && records.contains_key(scored[i].id) ==> kept(
                scored,
                records,
            ).contains(#[trigger] scored[i]),
        ranked(scored) ==> ranked(kept(scored, records)),
    decreases scored.len(),
{
    if scored.len() > 0 {
        let front = scored.drop_last();
        lemma_kept(front, records);
        let k = kept(scored, records);
        let kf = kept(front, records);
        assert forall|i: int|
            0 <= i < scored.len() && records.contains_key(scored[i].id) implies k.contains(
            #[trigger] scored[i],
        ) by {
            if i < front.len() {
                let j = choose|j: int| 0 <= j < kf.len() && kf[j] == front[i];
                assert(k[j] == scored[i]);
            } else {
                assert(k[k.len() - 1] == scored[i]);
            }
        }
        if ranked(scored) {
            assert forall|i: int, j: int| 0 <= i < j < k.len() implies ranks_before(k[i], k[j]) by {
                if j == kf.len() {
                    assert(records.contains_key(kept(front, records)[i].id));
                }
            }
        }
    }
}

/// Whether `numbers` may be the unsigned values of the index document of
/// `record`.
pub open spec fn projects<T: DocumentLike>(
    record: T,
    fields: T::IndexFieldsType,
    numbers: Map<u32, Seq<u64>>,
) -> bool {
    exists|doc: TantivyDocument| #[trigger]
        doc_numbers(doc) == numbers && call_ensures(
            T::as_index_document,
            (&record, &fields),
            Ok(doc),
        )
}

/// Whether `op` adds the index document of `record`, stamped with `id`.
pub open spec fn adds<T: DocumentLike>(
    op: IndexOp,
    record: T,
    fields: T::IndexFieldsType,
    id_field: u32,
    id: u64,
) -> bool {
    op matches IndexOp::Add(numbers) && exists|base: Map<u32, Seq<u64>>|
        #![trigger stamped(base, id_field, id)]
        projects(record, fields, base) && numbers == stamped(base, id_field, id)
}

/// The keys of the identifiers `ids`.
pub open spec fn keys_of(ids: Seq<u64>) -> Set<Seq<u8>> {
    Set::new(|k: Seq<u8>| exists|i: int| 0 <= i < ids.len() && key_of(#[trigger] ids[i]) == k)
}

/// Whether no identifier after the place `i` of `ids` is the one at `i`.
pub open spec fn is_last_of(ids: Seq<u64>, i: int) -> bool {
    forall|j: int| i < j < ids.len() ==> #[trigger] ids[j] != ids[i]
}

/// Whether `after` is `before` with the records `inners` stored under the
/// identifiers `ids`: each identifier holds bytes of the last record given
/// for it, and every other key is as it was.
pub open spec fn stored<T: DocumentLike>(
    before: Map<Seq<u8>, Seq<u8>>,
    after: Map<Seq<u8>, Seq<u8>>,
    ids: Seq<u64>,
    inners: Seq<T>,
) -> bool {
    &&& ids.len() == inners.len()
    &&& forall|i: int|
        0 <= i < ids.len() ==> after.contains_key(key_of(#[trigger] ids[i])) && (is_last_of(ids, i)
            ==> encodes(inners[i], after[key_of(ids[i])]))
    &&& forall|k: Seq<u8>|
        !keys_of(ids).contains(k) ==> (#[trigger] after.contains_key(k) <==> before.contains_key(
            k,
        )) && (before.contains_key(k) ==> after[k] == before[k])
}

/// Whether `after` is `before` without the records of the identifiers
/// `ids`: their keys are gone, and every other key is as it was.
pub open spec fn removed(
    before: Map<Seq<u8>, Seq<u8>>,
    after: Map<Seq<u8>, Seq<u8>>,
    ids: Seq<u64>,
) -> bool {
    forall|k: Seq<u8>|
        (#[trigger] after.contains_key(k) <==> before.contains_key(k) && !keys_of(ids).contains(k))
            && (after.contains_key(k) ==> after[k] == before[k])
}

/// Whether `log` begins with `base`.
pub open spec fn extends(log: Seq<IndexOp>, base: Seq<IndexOp>) -> bool {
    base.len() <= log.len() && log.subrange(0, base.len() as int) == base
}

/// What `log` holds after its first `from` operations.
pub open spec fn tail(log: Seq<IndexOp>, from: nat) -> Seq<IndexOp> {
    log.subrange(from as int, log.len() as int)
}

/// Whether `ops` add the index documents of the records `inners`, each
/// stamped with its identifier of `ids`, in order.
pub open spec fn adds_all<T: DocumentLike>(
    ops: Seq<IndexOp>,
    ids: Seq<u64>,
    inners: Seq<T>,
    fields: T::IndexFieldsType,
    id_field: u32,
) -> bool {
    &&& ops.len() == ids.len() == inners.len()
    &&& forall|i: int|
        0 <= i < ops.len() ==> adds(#[trigger] ops[i], inners[i], fields, id_field, ids[i])
}

/// Whether `ops` replace the index documents of the records `inners`: for
/// each in order, the deletion of what is stamped with its identifier, then
/// the addition of its index document, stamped with the identifier.
pub open spec fn replaces_all<T: DocumentLike>(
    ops: Seq<IndexOp>,
    ids: Seq<u64>,
    inners: Seq<T>,
    fields: T::IndexFieldsType,
    id_field: u32,
) -> bool {
    &&& ops.len() == 2 * ids.len()
    &&& ids.len() == inners.len()
    &&& forall|i: int|
        0 <= i < ids.len() ==> #[trigger] ops[2 * i] == (IndexOp::Delete {
            field: id_field,
            value: ids[i],
        }) && adds(ops[2 * i + 1], inners[i], fields, id_field, ids[i])
}

/// Whether `ops` delete what is stamped with the identifiers `ids`, in
/// order.
pub open spec fn deletes_all(ops: Seq<IndexOp>, ids: Seq<u64>, id_field: u32) -> bool {
    &&& ops.len() == ids.len()
    &&& forall|i: int|
        0 <= i < ops.len() ==> #[trigger] ops[i] == (IndexOp::Delete {
            field: id_field,
            value: ids[i],
        })
}

/// Whether the identifiers `ids` ascend without a repeat.
pub open spec fn ascending(ids: Seq<u64>) -> bool {
    forall|i: int, j: int| 0 <= i < j < ids.len() ==> ids[i] < ids[j]
}

/// The identifiers of documents, in order.
pub open spec fn ids_of<T>(docs: Seq<Document<T>>) -> Seq<u64> {
    Seq::new(docs.len(), |i: int| docs[i].id)
}

/// The records of documents, in order.
pub open spec fn inners_of<T>(docs: Seq<Document<T>>) -> Seq<T> {
    Seq::new(docs.len(), |i: int| docs[i].inner)
}

/// Whether `docs` are the records of `entries`: every entry is a record,
/// and `docs` hold each once, decoded, in ascending order of the keys.
pub open spec fn all_of<T: DocumentLike>(
    docs: Seq<Document<T>>,
    entries: Map<Seq<u8>, Seq<u8>>,
) -> bool {
    &&& forall|k: Seq<u8>| #[trigger] entries.contains_key(k) ==> k.len() == KEY_LEN
    &&& forall|i: int|
        0 <= i < docs.len() ==> entries.contains_key(key_of((#[trigger] docs[i]).id)) && decodes(
            entries[key_of(docs[i].id)],
            docs[i].inner,
        )
    &&& forall|i: int, j: int|
        0 <= i < j < docs.len() ==> key_before(
            key_of((#[trigger] docs[i]).id),
            key_of((#[trigger] docs[j]).id),
        )
    &&& forall|id: u64| #[trigger]
        entries.contains_key(key_of(id)) ==> exists|i: int|
            0 <= i < docs.len() && (#[trigger] docs[i]).id == id
}

/// The writes that store the values `values` under the identifiers `ids`,
/// a later one over an earlier one for the same identifier.
pub open spec fn writes_of(ids: Seq<u64>, values: Seq<Seq<u8>>) -> Map<Seq<u8>, Option<Seq<u8>>>
    decreases ids.len(),
{
    if ids.len() == 0 || values.len() != ids.len() {
        Map::empty()
    } else {
        writes_of(ids.drop_last(), values.drop_last()).insert(
            key_of(ids.last()),
            Some(values.last()),
        )
    }
}

/// The writes that remove the records of the identifiers `ids`.
pub open spec fn removals_of(ids: Seq<u64>) -> Map<Seq<u8>, Option<Seq<u8>>>
    decreases ids.len(),
{
    if ids.len() == 0 {
        Map::empty()
    } else {
        removals_of(ids.drop_last()).insert(key_of(ids.last()), None)
    }
}

/// What `writes_of` holds: a write for the key of each identifier and for
/// no other key, with the value of the last place of the identifier.
pub proof fn lemma_writes_of(ids: Seq<u64>, values: Seq<Seq<u8>>)
    requires
        ids.len() == values.len(),
    ensures
        writes_of(ids, values).dom() =~= keys_of(ids),
        forall|i: int|
            0 <= i < ids.len() && is_last_of(ids, i) ==> writes_of(ids, values)[key_of(
                #[trigger] ids[i],
            )] == Some(values[i]),
        forall|k: Seq<u8>| #[trigger]
            writes_of(ids, values).contains_key(k) ==> writes_of(ids, values)[k] is Some,
    decreases ids.len(),
{
    if ids.len() > 0 {
        let front = ids.drop_last();
        let front_values = values.drop_last();
        lemma_writes_of(front, front_values);
        let w = writes_of(ids, values);
        assert forall|k: Seq<u8>| w.dom().contains(k) <==> keys_of(ids).contains(k) by {
            if keys_of(ids).contains(k) {
                let i = choose|i: int| 0 <= i < ids.len() && key_of(#[trigger] ids[i]) == k;
                if i < front.len() {
                    assert(key_of(front[i]) == k);
                }
            }
        }
        assert forall|i: int| 0 <= i < ids.len() && is_last_of(ids, i) implies w[key_of(
            #[trigger] ids[i],
        )] == Some(values[i]) by {
            if i < front.len() {
                lemma_key_of(ids[i], ids.last());
                assert(is_last_of(front, i));
            }
        }
    }
}

/// What `removals_of` holds: a removal for the key of each identifier and
/// for no other key.
pub proof fn lemma_removals_of(ids: Seq<u64>)
    ensures
        removals_of(ids).dom() =~= keys_of(ids),
        forall|k: Seq<u8>| #[trigger]
            removals_of(ids).contains_key(k) ==> removals_of(ids)[k] is None,
    decreases ids.len(),
{
    if ids.len() > 0 {
        let front = ids.drop_last();
        lemma_removals_of(front);
        let w = removals_of(ids);
        assert forall|k: Seq<u8>| w.dom().contains(k) <==> keys_of(ids).contains(k) by {
            if keys_of(ids).contains(k) {
                let i = choose|i: int| 0 <= i < ids.len() && key_of(#[trigger] ids[i]) == k;
                if i < front.len() {
                    assert(key_of(front[i]) == k);
                }
            }
        }
    }
}

/// The operations that hand over the documents `docs`, each stamped with
/// its identifier of `ids`; before each, where `replace` is set, the
/// deletion of what is stamped with that identifier.
pub open spec fn staging(
    docs: Seq<TantivyDocument>,
    ids: Seq<u64>,
    id_field: u32,
    replace: bool,
) -> Seq<IndexOp>
    decreases docs.len(),
{
    if docs.len() == 0 || ids.len() != docs.len() {
        Seq::empty()
    } else {
        let front = staging(docs.drop_last(), ids.drop_last(), id_field, replace);
        let add = IndexOp::Add(stamped(doc_numbers(docs.last()), id_field, ids.last()));
        if replace {
            front.push(IndexOp::Delete { field: id_field, value: ids.last() }).push(add)
        } else {
            front.push(add)
        }
    }
}

/// A tree that has taken the writes of `writes_of` holds the records
/// stored.
pub proof fn lemma_stored<T: DocumentLike>(
    before: Map<Seq<u8>, Seq<u8>>,
    after: Map<Seq<u8>, Seq<u8>>,
    ids: Seq<u64>,
    inners: Seq<T>,
    values: Seq<Seq<u8>>,
)
    requires
        ids.len() == inners.len() == values.len(),
        forall|i: int| 0 <= i < ids.len() ==> encodes(inners[i], #[trigger] values[i]),
        after == apply_writes(before, writes_of(ids, values)),
    ensures
        stored(before, after, ids, inners),
{
    lemma_writes_of(ids, values);
}

/// A tree that has taken the writes of `removals_of` holds none of the
/// records removed.
pub proof fn lemma_removed(
    before: Map<Seq<u8>, Seq<u8>>,
    after: Map<Seq<u8>, Seq<u8>>,
    ids: Seq<u64>,
)
    requires
        after == apply_writes(before, removals_of(ids)),
    ensures
        removed(before, after, ids),
{
    lemma_removals_of(ids);
}

/// The operations that hand over index documents add them, or replace
/// them, in order.
pub proof fn lemma_staging_adds<T: DocumentLike>(
    docs: Seq<TantivyDocument>,
    ids: Seq<u64>,
    inners: Seq<T>,
    fields: T::IndexFieldsType,
    id_field: u32,
)
    requires
        docs.len() == ids.len() == inners.len(),
        forall|i: int|
            0 <= i < docs.len() ==> projects(inners[i], fields, doc_numbers(#[trigger] docs[i])),
    ensures
        adds_all(staging(docs, ids, id_field, false), ids, inners, fields, id_field),
        replaces_all(staging(docs, ids, id_field, true), ids, inners, fields, id_field),
    decreases docs.len(),
{
    if docs.len() > 0 {
        lemma_staging_adds(
            docs.drop_last(),
            ids.drop_last(),
            inners.drop_last(),
            fields,
            id_field,
        );
    }
}

/// Whether records were prepared for a write: `writes` stores the bytes
/// `values` under the identifiers `ids`, the bytes are those of the records
/// `inners`, and `docs` are their index documents, each in order.
pub open spec fn prepared<T: DocumentLike>(
    ids: Seq<u64>,
    inners: Seq<T>,
    fields: T::IndexFieldsType,
    writes: Map<Seq<u8>, Option<Seq<u8>>>,
    docs: Seq<TantivyDocument>,
    values: Seq<Seq<u8>>,
) -> bool {
    &&& ids.len() == inners.len() == values.len() == docs.len()
    &&& writes == writes_of(ids, values)
    &&& forall|k: int| 0 <= k < ids.len() ==> encodes(inners[k], #[trigger] values[k])
    &&& forall|k: int|
        0 <= k < ids.len() ==> projects(inners[k], fields, doc_numbers(#[trigger] docs[k]))
}

/// What was prepared stays prepared with one more record.
pub proof fn lemma_prepared_push<T: DocumentLike>(
    ids: Seq<u64>,
    inners: Seq<T>,
    fields: T::IndexFieldsType,
    docs: Seq<TantivyDocument>,
    values: Seq<Seq<u8>>,
    id: u64,
    inner: T,
    doc: TantivyDocument,
    bytes: Seq<u8>,
)
    requires
        prepared(ids, inners, fields, writes_of(ids, values), docs, values),
        encodes(inner, bytes),
        projects(inner, fields, doc_numbers(doc)),
    ensures
        prepared(
            ids.push(id),
            inners.push(inner),
            fields,
            writes_of(ids, values).insert(key_of(id), Some(bytes)),
            docs.push(doc),
            values.push(bytes),
        ),
{
    assert(ids.push(id).drop_last() =~= ids);
    assert(values.push(bytes).drop_last() =~= values);
}

/// A log that is a base and then operations begins with the base and ends
/// with the operations.
pub proof fn lemma_extended(base: Seq<IndexOp>, log: Seq<IndexOp>, ops: Seq<IndexOp>)
    requires
        log =~= base + ops,
    ensures
        extends(log, base),
        tail(log, base.len()) == ops,
{
    assert(log.subrange(0, base.len() as int) =~= base);
    assert(tail(log, base.len()) =~= ops);
}

/// What is written as prepared is stored, and its index documents are
/// added, or replace what was there.
pub proof fn lemma_written<T: DocumentLike>(
    before: Map<Seq<u8>, Seq<u8>>,
    after: Map<Seq<u8>, Seq<u8>>,
    ids: Seq<u64>,
    inners: Seq<T>,
    values: Seq<Seq<u8>>,
    docs: Seq<TantivyDocument>,
    fields: T::IndexFieldsType,
    id_field: u32,
)
    requires
        prepared(ids, inners, fields, writes_of(ids, values), docs, values),
        after == apply_writes(before, writes_of(ids, values)),
    ensures
        stored(before, after, ids, inners),
        adds_all(staging(docs, ids, id_field, false), ids, inners, fields, id_field),
        replaces_all(staging(docs, ids, id_field, true), ids, inners, fields, id_field),
{
    lemma_stored(before, after, ids, inners, values);
    lemma_staging_adds(docs, ids, inners, fields, id_field);
}

/// The operations that delete what is stamped with the identifiers `ids`,
/// in order.
pub open spec fn deletions(ids: Seq<u64>, id_field: u32) -> Seq<IndexOp> {
    Seq::new(ids.len(), |i: int| IndexOp::Delete { field: id_field, value: ids[i] })
}

} // verus!

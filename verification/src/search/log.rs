//! What an index writer was handed, and what that leaves in the index.

use vstd::prelude::*;

verus! {

/// One operation that an index writer was handed.
pub enum IndexOp {
    /// Add a document; of the document, the unsigned values by field.
    Add(Map<u32, Seq<u64>>),
    /// Delete the documents that hold the unsigned `value` under `field`.
    Delete { field: u32, value: u64 },
}

/// The values under `field` in `numbers`: none where the field is absent.
pub open spec fn values_under(numbers: Map<u32, Seq<u64>>, field: u32) -> Seq<u64> {
    if numbers.contains_key(field) {
        numbers[field]
    } else {
        Seq::empty()
    }
}

/// `numbers` with `value` added under `field`, after what is there.
pub open spec fn stamped(numbers: Map<u32, Seq<u64>>, field: u32, value: u64) -> Map<
    u32,
    Seq<u64>,
> {
    numbers.insert(field, values_under(numbers, field).push(value))
}

/// No operations.
pub open spec fn no_ops() -> Seq<IndexOp> {
    Seq::empty()
}

/// Whether the document `doc` holds the unsigned `value` under `field`.
pub open spec fn carries(doc: Map<u32, Seq<u64>>, field: u32, value: u64) -> bool {
    values_under(doc, field).contains(value)
}

/// The documents of `docs` that do not hold `value` under `field`, in
/// order.
pub open spec fn without(docs: Seq<Map<u32, Seq<u64>>>, field: u32, value: u64) -> Seq<
    Map<u32, Seq<u64>>,
>
    decreases docs.len(),
{
    if docs.len() == 0 {
        Seq::empty()
    } else if carries(docs.last(), field, value) {
        without(docs.drop_last(), field, value)
    } else {
        without(docs.drop_last(), field, value).push(docs.last())
    }
}

/// The documents of `docs` that hold `value` under `field`, in order.
pub open spec fn carriers(docs: Seq<Map<u32, Seq<u64>>>, field: u32, value: u64) -> Seq<
    Map<u32, Seq<u64>>,
>
    decreases docs.len(),
{
    if docs.len() == 0 {
        Seq::empty()
    } else if carries(docs.last(), field, value) {
        carriers(docs.drop_last(), field, value).push(docs.last())
    } else {
        carriers(docs.drop_last(), field, value)
    }
}

/// What the operation `op` makes of the documents `docs`: an addition puts
/// its document behind them, a deletion leaves those that do not hold its
/// value under its field.
pub open spec fn applied(docs: Seq<Map<u32, Seq<u64>>>, op: IndexOp) -> Seq<Map<u32, Seq<u64>>> {
    match op {
        IndexOp::Add(doc) => docs.push(doc),
        IndexOp::Delete { field, value } => without(docs, field, value),
    }
}

/// The documents that the operations of `log` leave in an index that was
/// empty before them.
pub open spec fn indexed(log: Seq<IndexOp>) -> Seq<Map<u32, Seq<u64>>>
    decreases log.len(),
{
    if log.len() == 0 {
        Seq::empty()
    } else {
        applied(indexed(log.drop_last()), log.last())
    }
}

/// A document that was stamped holds the stamp.
pub proof fn lemma_stamped_carries(numbers: Map<u32, Seq<u64>>, field: u32, value: u64)
    ensures
        carries(stamped(numbers, field, value), field, value),
{
    let values = values_under(numbers, field).push(value);
    assert(values[values.len() - 1] == value);
}

/// Among the documents that do not hold a value, none holds it.
pub proof fn lemma_without_carriers(docs: Seq<Map<u32, Seq<u64>>>, field: u32, value: u64)
    ensures
        carriers(without(docs, field, value), field, value) == Seq::<Map<u32, Seq<u64>>>::empty(),
    decreases docs.len(),
{
    if docs.len() > 0 {
        lemma_without_carriers(docs.drop_last(), field, value);
        if !carries(docs.last(), field, value) {
            let rest = without(docs.drop_last(), field, value);
            assert(rest.push(docs.last()).drop_last() =~= rest);
        }
    }
}

/// One more operation in the log is applied to what the log leaves.
pub proof fn lemma_indexed_push(log: Seq<IndexOp>, op: IndexOp)
    ensures
        indexed(log.push(op)) == applied(indexed(log), op),
{
    assert(log.push(op).drop_last() =~= log);
}

} // verus!

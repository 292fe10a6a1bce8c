//! Scored identifiers, and the order in which they are returned.

use vstd::prelude::*;
use vstd::seq_lib::{lemma_multiset_commutative, to_multiset_build};

verus! {

/// A search score: the bits of a 32-bit IEEE 754 number.
#[derive(Clone, Copy, Debug, PartialEq, Eq, Structural)]
pub struct Score {
    pub bits: u32,
}

/// The sign bit of a score.
pub const SIGN_BIT: u32 = 0x8000_0000;

/// The magnitude of an infinite score: every larger magnitude is no number.
pub const INFINITE: u32 = 0x7F80_0000;

impl Score {
    /// The bits below the sign bit.
    pub open spec fn magnitude(self) -> int {
        if self.bits >= SIGN_BIT {
            self.bits - SIGN_BIT
        } else {
            self.bits as int
        }
    }

    /// Whether the bits stand for no number.
    pub open spec fn is_nan(self) -> bool {
        self.magnitude() > INFINITE
    }

    /// The place of the score among all scores: a greater number has a
    /// greater place, both zeros share one, and what is no number has the
    /// lowest.
    pub open spec fn rank(self) -> int {
        if self.is_nan() {
            0
        } else if self.bits >= SIGN_BIT {
            SIGN_BIT - self.magnitude()
        } else {
            SIGN_BIT + self.magnitude()
        }
    }

    /// The score with these bits.
    pub fn from_bits(bits: u32) -> (score: Score)
        ensures
            score.bits == bits,
    {
        Score { bits }
    }

    /// The bits of the score.
    pub fn to_bits(self) -> (bits: u32)
        ensures
            bits == self.bits,
    {
        self.bits
    }

    /// The place of the score among all scores.
    pub fn rank_key(self) -> (key: u32)
        ensures
            key == self.rank(),
    {
        let negative: bool = self.bits >= SIGN_BIT;
        let magnitude: u32 = if negative {
            self.bits - SIGN_BIT
        } else {
            self.bits
        };
        if magnitude > INFINITE {
            0
        } else if negative {
            SIGN_BIT - magnitude
        } else {
            SIGN_BIT + magnitude
        }
    }
}

/// Datastore `id`, scored according to search performance.
#[derive(Clone, Copy, Debug, PartialEq, Eq, Structural)]
pub struct ScoredId {
    pub id: u64,
    pub score: Score,
}

/// Whether `a` may stand before `b` in a result: its score is greater, or
/// the scores share a place and its identifier is not the greater one.
pub open spec fn ranks_before(a: ScoredId, b: ScoredId) -> bool {
    a.score.rank() > b.score.rank() || (a.score.rank() == b.score.rank() && a.id <= b.id)
}

/// Whether `s` is in the order of results: descending by score, and
/// ascending by identifier where scores share a place.
pub open spec fn ranked(s: Seq<ScoredId>) -> bool {
    forall|i: int, j: int| 0 <= i < j < s.len() ==> ranks_before(s[i], s[j])
}

/// The fruits of all segments, one after the other.
pub open spec fn gathered(fruits: Seq<Vec<ScoredId>>) -> Seq<ScoredId>
    decreases fruits.len(),
{
    if fruits.len() == 0 {
        Seq::empty()
    } else {
        gathered(fruits.drop_last()) + fruits.last()@
    }
}

impl ScoredId {
    /// Whether `self` may stand before `other` in a result.
    pub fn precedes(&self, other: &ScoredId) -> (b: bool)
        ensures
            b == ranks_before(*self, *other),
    {
        let mine: u32 = self.score.rank_key();
        let theirs: u32 = other.score.rank_key();
        mine > theirs || (mine == theirs && self.id <= other.id)
    }
}

/// Of two scored identifiers one may stand before the other, and what may
/// stand before a second that may stand before a third may stand before the
/// third.
pub proof fn lemma_ranks_before_is_total_order(a: ScoredId, b: ScoredId, c: ScoredId)
    ensures
        ranks_before(a, b) || ranks_before(b, a),
        ranks_before(a, b) && ranks_before(b, c) ==> ranks_before(a, c),
        ranks_before(a, b) && ranks_before(b, a) ==> a.id == b.id && a.score.rank()
            == b.score.rank(),
{
}

/// The elements of `v` from `from` up to `to`.
fn copy_range(v: &Vec<ScoredId>, from: usize, to: usize) -> (out: Vec<ScoredId>)
    requires
        from <= to <= v@.len(),
    ensures
        out@ == v@.subrange(from as int, to as int),
{
    let mut out: Vec<ScoredId> = Vec::new();
    let mut i: usize = from;
    while i < to
        invariant
            from <= i <= to <= v@.len(),
            out@ == v@.subrange(from as int, i as int),
        decreases to - i,
    {
        out.push(v[i]);
        i += 1;
    }
    out
}

/// Two runs in the order of results, as one.
fn merge_runs(a: &Vec<ScoredId>, b: &Vec<ScoredId>) -> (out: Vec<ScoredId>)
    requires
        ranked(a@),
        ranked(b@),
        a@.len() + b@.len() <= usize::MAX,
    ensures
        ranked(out@),
        out@.to_multiset() == a@.to_multiset().add(b@.to_multiset()),
{
    let mut out: Vec<ScoredId> = Vec::new();
    let mut i: usize = 0;
    let mut j: usize = 0;
    proof {
        let none = Seq::<ScoredId>::empty();
        assert(a@.take(0) =~= none);
        assert(b@.take(0) =~= none);
        lemma_multiset_commutative(none, none);
    }
    while i < a.len() || j < b.len()
        invariant
            i <= a@.len(),
            j <= b@.len(),
            ranked(a@),
            ranked(b@),
            ranked(out@),
            out@.to_multiset() == a@.take(i as int).to_multiset().add(
                b@.take(j as int).to_multiset(),
            ),
            forall|k: int, p: int|
                0 <= k < out@.len() && i <= p < a@.len() ==> ranks_before(out@[k], a@[p]),
            forall|k: int, p: int|
                0 <= k < out@.len() && j <= p < b@.len() ==> ranks_before(out@[k], b@[p]),
        decreases (a@.len() - i) + (b@.len() - j),
    {
        let from_a: bool = if i < a.len() && j < b.len() {
            a[i].precedes(&b[j])
        } else {
            i < a.len()
        };
        let ghost before = out@;
        if from_a {
            let next: ScoredId = a[i];
            out.push(next);
            proof {
                to_multiset_build(before, next);
                to_multiset_build(a@.take(i as int), next);
                assert(a@.take(i as int).push(next) =~= a@.take(i + 1));
                assert forall|k: int, p: int|
                    0 <= k < out@.len() && j <= p < b@.len() implies ranks_before(
                    out@[k],
                    b@[p],
                ) by {
                    if k == before.len() {
                        lemma_ranks_before_is_total_order(next, b@[j as int], b@[p]);
                    }
                }
            }
            i += 1;
        } else {
            let next: ScoredId = b[j];
            out.push(next);
            proof {
                to_multiset_build(before, next);
                to_multiset_build(b@.take(j as int), next);
                assert(b@.take(j as int).push(next) =~= b@.take(j + 1));
                assert forall|k: int, p: int|
                    0 <= k < out@.len() && i <= p < a@.len() implies ranks_before(
                    out@[k],
                    a@[p],
                ) by {
                    if k == before.len() {
                        lemma_ranks_before_is_total_order(a@[i as int], next, next);
                        lemma_ranks_before_is_total_order(next, a@[i as int], a@[p]);
                    }
                }
            }
            j += 1;
        }
    }
    proof {
        assert(a@.take(i as int) =~= a@);
        assert(b@.take(j as int) =~= b@);
    }
    out
}

/// The elements of `v` in the order of results.
fn sort_ranked(v: &Vec<ScoredId>) -> (out: Vec<ScoredId>)
    ensures
        ranked(out@),
        out@.to_multiset() == v@.to_multiset(),
    decreases v@.len(),
{
    let n: usize = v.len();
    if n <= 1 {
        let out: Vec<ScoredId> = copy_range(v, 0, n);
        assert(out@ =~= v@);
        out
    } else {
        let half: usize = n / 2;
        let left: Vec<ScoredId> = copy_range(v, 0, half);
        let right: Vec<ScoredId> = copy_range(v, half, n);
        proof {
            assert(left@ + right@ =~= v@);
            lemma_multiset_commutative(left@, right@);
        }
        let left_sorted: Vec<ScoredId> = sort_ranked(&left);
        let right_sorted: Vec<ScoredId> = sort_ranked(&right);
        proof {
            left_sorted@.to_multiset_ensures();
            right_sorted@.to_multiset_ensures();
            left@.to_multiset_ensures();
            right@.to_multiset_ensures();
        }
        merge_runs(&left_sorted, &right_sorted)
    }
}

/// Like `tantivy`'s `TopDocs` collector, but without any limit.
///
/// Returns `ScoredId`, a container for the datastore `id` and search score.
#[derive(Clone, Copy, Debug)]
pub struct ScoredIds {
    pub size_hint: Option<usize>,
    pub id_field: u32,
}

/// Used by the `ScoredIds` collector: what one segment has matched so far.
pub struct ScoredIdsSegmentCollector {
    pub buffer: Vec<ScoredId>,
}

impl ScoredIds {
    /// The collector of one segment, with nothing matched yet.
    pub fn for_segment(&self) -> (child: ScoredIdsSegmentCollector)
        ensures
            child.buffer@ == Seq::<ScoredId>::empty(),
    {
        let buffer: Vec<ScoredId> = match self.size_hint {
            Some(n) => Vec::with_capacity(n),
            None => Vec::new(),
        };
        ScoredIdsSegmentCollector { buffer }
    }

    /// Scores are part of what this collector returns.
    pub fn requires_scoring(&self) -> (b: bool)
        ensures
            b,
    {
        true
    }

    /// The matches of all segments as one result: every match once, in the
    /// order of results.
    pub fn merge_fruits(&self, segment_fruits: Vec<Vec<ScoredId>>) -> (out: Vec<ScoredId>)
        ensures
            ranked(out@),
            out@.to_multiset() == gathered(segment_fruits@).to_multiset(),
    {
        let mut all: Vec<ScoredId> = Vec::new();
        let mut s: usize = 0;
        while s < segment_fruits.len()
            invariant
                s <= segment_fruits@.len(),
                all@ == gathered(segment_fruits@.take(s as int)),
            decreases segment_fruits@.len() - s,
        {
            let fruit: &Vec<ScoredId> = &segment_fruits[s];
            let ghost start = all@;
            let mut k: usize = 0;
            while k < fruit.len()
                invariant
                    k <= fruit@.len(),
                    all@ == start + fruit@.take(k as int),
                decreases fruit@.len() - k,
            {
                all.push(fruit[k]);
                k += 1;
            }
            proof {
                let next = segment_fruits@.take(s + 1);
                assert(next.drop_last() =~= segment_fruits@.take(s as int));
            }
            s += 1;
        }
        proof {
            assert(segment_fruits@.take(s as int) =~= segment_fruits@);
        }
        sort_ranked(&all)
    }
}

impl ScoredIdsSegmentCollector {
    /// Takes in one match. A match whose identifier could not be read is
    /// passed over.
    pub fn collect(&mut self, id: Option<u64>, score: Score)
        ensures
            final(self).buffer@ == (match id {
                Some(id) => old(self).buffer@.push(ScoredId { id, score }),
                None => old(self).buffer@,
            }),
    {
        match id {
            Some(id) => {
                self.buffer.push(ScoredId { id, score });
            },
            None => {},
        }
    }

    /// What the segment has matched, in the order in which it came in.
    pub fn harvest(self) -> (fruit: Vec<ScoredId>)
        ensures
            fruit@ == self.buffer@,
    {
        self.buffer
    }
}

} // verus!

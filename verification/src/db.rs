//! Items related to `sled` and data storage.
//!
//! A [`RecordTree`] is one tree of a `sled` database: an ordered map from
//! keys to values, in which the record with the identifier `id` is kept
//! under the eight bytes of `id`, least significant first. The database
//! issues the identifiers.
//!
//! The contracts speak of what the tree holds as a map, [`tree_entries`],
//! and of the identifiers that the database has issued as a set,
//! [`issued_ids`]. What they say of the tree holds as long as the tree is
//! written through one `RecordTree` only; what they say of the identifiers
//! holds of every handle of the database.

use crate::err::{misconfigured, StoreError};
use vstd::bytes::{
    lemma_auto_spec_u64_to_from_le_bytes, spec_u64_from_le_bytes, spec_u64_to_le_bytes,
    u64_from_le_bytes, u64_to_le_bytes,
};
use vstd::prelude::*;

verus! {

/// The number of bytes of a record's key.
pub const KEY_LEN: usize = 8;

/// The key under which the record with identifier `id` is kept: the
/// identifier's eight bytes, least significant first.
pub open spec fn key_of(id: u64) -> Seq<u8> {
    spec_u64_to_le_bytes(id)
}

/// The strict order in which the storage engine keeps its keys: byte by byte
/// from the front, a proper prefix before what it is a prefix of.
pub open spec fn key_before(a: Seq<u8>, b: Seq<u8>) -> bool
    decreases a.len(),
{
    if b.len() == 0 {
        false
    } else if a.len() == 0 {
        true
    } else if a[0] != b[0] {
        a[0] < b[0]
    } else {
        key_before(a.drop_first(), b.drop_first())
    }
}

/// The records among `entries`, by identifier: the entries whose key is the
/// key of an identifier.
pub open spec fn records_of(entries: Map<Seq<u8>, Seq<u8>>) -> Map<u64, Seq<u8>> {
    Map::new(|id: u64| entries.contains_key(key_of(id)), |id: u64| entries[key_of(id)])
}

/// What `entries` becomes once `writes` are applied: a key that `writes`
/// names takes the value given there, or leaves where none is given; every
/// other key stays as it is.
pub open spec fn apply_writes(
    entries: Map<Seq<u8>, Seq<u8>>,
    writes: Map<Seq<u8>, Option<Seq<u8>>>,
) -> Map<Seq<u8>, Seq<u8>> {
    Map::new(
        |k: Seq<u8>|
            if writes.contains_key(k) {
                writes[k] is Some
            } else {
                entries.contains_key(k)
            },
        |k: Seq<u8>|
            if writes.contains_key(k) {
                writes[k]->Some_0
            } else {
                entries[k]
            },
    )
}

/// Every identifier has a key of `KEY_LEN` bytes, and no two share one.
pub proof fn lemma_key_of(a: u64, b: u64)
    ensures
        key_of(a).len() == KEY_LEN,
        key_of(a) == key_of(b) <==> a == b,
        spec_u64_from_le_bytes(key_of(a)) == a,
{
    lemma_auto_spec_u64_to_from_le_bytes();
}

/// Every key of `KEY_LEN` bytes is the key of exactly one identifier.
pub proof fn lemma_key_is_of(key: Seq<u8>)
    requires
        key.len() == KEY_LEN,
    ensures
        key_of(spec_u64_from_le_bytes(key)) == key,
{
    lemma_auto_spec_u64_to_from_le_bytes();
}

/// The key of the record with identifier `id`.
pub fn encode_key(id: u64) -> (key: Vec<u8>)
    ensures
        key@ == key_of(id),
        key@.len() == KEY_LEN,
{
    u64_to_le_bytes(id)
}

/// The identifier whose key `key` is; none where `key` is not `KEY_LEN`
/// bytes long.
pub fn decode_key(key: &[u8]) -> (id: Option<u64>)
    ensures
        id is Some <==> key@.len() == KEY_LEN,
        id matches Some(n) ==> key_of(n) == key@,
{
    if key.len() == KEY_LEN {
        proof {
            lemma_key_is_of(key@);
        }
        Some(u64_from_le_bytes(key))
    } else {
        None
    }
}

/// The entries of `list` as plain values: key and value of each, in order.
pub open spec fn pairs(list: Seq<(Vec<u8>, Vec<u8>)>) -> Seq<(Seq<u8>, Seq<u8>)> {
    Seq::new(list.len(), |i: int| (list[i].0@, list[i].1@))
}

/// Whether `listing` gives every entry of `entries` once, as key and value,
/// in ascending order of the keys.
pub open spec fn lists(listing: Seq<(Seq<u8>, Seq<u8>)>, entries: Map<Seq<u8>, Seq<u8>>) -> bool {
    &&& forall|i: int|
        0 <= i < listing.len() ==> entries.contains_key(#[trigger] listing[i].0)
            && entries[listing[i].0] == listing[i].1
    &&& forall|i: int, j: int|
        0 <= i < j < listing.len() ==> key_before(#[trigger] listing[i].0, #[trigger] listing[j].0)
    &&& forall|k: Seq<u8>| #[trigger]
        entries.contains_key(k) ==> exists|i: int|
            0 <= i < listing.len() && #[trigger] listing[i].0 == k
}

/// The writes of an empty batch: none.
pub open spec fn no_writes() -> Map<Seq<u8>, Option<Seq<u8>>> {
    Map::empty()
}

/// What a tree holds: its values by key.
pub uninterp spec fn tree_entries(tree: sled::Tree) -> Map<Seq<u8>, Seq<u8>>;

/// The identifiers that a database has issued.
pub uninterp spec fn issued_ids(db: sled::Db) -> Set<u64>;

/// Whether `id` is above every identifier of `ids`.
pub open spec fn is_above(id: u64, ids: Set<u64>) -> bool {
    forall|other: u64| ids.contains(other) ==> other < id
}

/// The writes that a batch holds, by key: the value to set, or `None` where
/// the key is to be removed.
pub uninterp spec fn batch_writes(batch: sled::Batch) -> Map<Seq<u8>, Option<Seq<u8>>>;

/// `sled::Db::open_tree`: opens or creates the keyspace of that name. What it
/// holds is whatever the database kept under the name, so nothing is claimed
/// of it.
#[verifier::external_body]
fn open_tree(db: &sled::Db, name: &str) -> (r: Result<sled::Tree, sled::Error>) {
    db.open_tree(name.as_bytes())
}

/// `sled::Db::generate_id`: a monotonic identifier. One that is issued is
/// above every identifier issued before, and is issued from then on; what
/// was issued stays issued.
#[verifier::external_body]
fn issue_id(db: &mut sled::Db) -> (r: Result<u64, sled::Error>)
    ensures
        issued_ids(*old(db)).subset_of(issued_ids(*final(db))),
        r matches Ok(id) ==> issued_ids(*final(db)).contains(id) && is_above(
            id,
            issued_ids(*old(db)),
        ),
{
    db.generate_id()
}

/// `sled::Tree::get`: the value kept under `key`, if there is one.
#[verifier::external_body]
fn tree_get(tree: &sled::Tree, key: &[u8]) -> (r: Result<Option<Vec<u8>>, sled::Error>)
    ensures
        r matches Ok(found) ==> (match found {
            Some(value) => tree_entries(*tree).contains_key(key@) && tree_entries(*tree)[key@]
                == value@,
            None => !tree_entries(*tree).contains_key(key@),
        }),
{
    tree.get(key).map(|found| found.map(|value| value.to_vec()))
}

/// `sled::Tree::iter`, read to its end: every entry of the tree once, in the
/// order of `Vec<u8>`, which is `key_before`. The first failure of the
/// iterator is returned in place of the entries.
#[verifier::external_body]
fn tree_scan(tree: &sled::Tree) -> (r: Result<Vec<(Vec<u8>, Vec<u8>)>, sled::Error>)
    ensures
        r matches Ok(list) ==> lists(pairs(list@), tree_entries(*tree)),
{
    tree.iter().map(|entry| entry.map(|(key, value)| (key.to_vec(), value.to_vec()))).collect()
}

/// `sled::Batch::default`: a batch without writes.
#[verifier::external_body]
fn batch_new() -> (batch: sled::Batch)
    ensures
        batch_writes(batch) == no_writes(),
{
    sled::Batch::default()
}

/// `sled::Batch::insert`: the batch now sets `key` to `value`, whatever it
/// held for `key` before.
#[verifier::external_body]
fn batch_insert(batch: &mut sled::Batch, key: &[u8], value: &[u8])
    ensures
        batch_writes(*final(batch)) == batch_writes(*old(batch)).insert(key@, Some(value@)),
{
    batch.insert(key, value)
}

/// `sled::Batch::remove`: the batch now removes `key`, whatever it held for
/// `key` before.
#[verifier::external_body]
fn batch_remove(batch: &mut sled::Batch, key: &[u8])
    ensures
        batch_writes(*final(batch)) == batch_writes(*old(batch)).insert(key@, None),
{
    batch.remove(key)
}

/// `sled::Tree::apply_batch`: where it succeeds, the tree holds what it held
/// with the writes of the batch applied. Of a failed call nothing is claimed:
/// the engine may have applied some of the writes.
#[verifier::external_body]
fn tree_apply(tree: &mut sled::Tree, batch: sled::Batch) -> (r: Result<(), sled::Error>)
    ensures
        r is Ok ==> tree_entries(*final(tree)) == apply_writes(
            tree_entries(*old(tree)),
            batch_writes(batch),
        ),
{
    tree.apply_batch(batch)
}

/// Writes for a `RecordTree`, gathered to be applied together.
pub struct WriteBatch {
    inner: sled::Batch,
}

impl WriteBatch {
    /// The writes gathered so far, by key.
    pub closed spec fn writes(&self) -> Map<Seq<u8>, Option<Seq<u8>>> {
        batch_writes(self.inner)
    }

    /// A batch without writes.
    pub fn new() -> (batch: WriteBatch)
        ensures
            batch.writes() == no_writes(),
    {
        WriteBatch { inner: batch_new() }
    }

    /// Adds the write that sets the record `id` to `value`.
    pub fn insert(&mut self, id: u64, value: &[u8])
        ensures
            final(self).writes() == old(self).writes().insert(key_of(id), Some(value@)),
    {
        let key: Vec<u8> = encode_key(id);
        batch_insert(&mut self.inner, key.as_slice(), value);
    }

    /// Adds the write that removes the record `id`.
    pub fn remove(&mut self, id: u64)
        ensures
            final(self).writes() == old(self).writes().insert(key_of(id), None),
    {
        let key: Vec<u8> = encode_key(id);
        batch_remove(&mut self.inner, key.as_slice());
    }
}

/// Wrapper for `sled::Tree` and its `sled::Db` (included for `id` generation).
pub struct RecordTree {
    inner: sled::Tree,
    db: sled::Db,
}

impl RecordTree {
    /// Create a new builder.
    pub fn builder() -> (builder: TreeBuilder)
        ensures
            builder.tree_name is None,
            builder.db is None,
    {
        TreeBuilder::default()
    }

    /// What the tree holds: its values by key.
    pub closed spec fn entries(&self) -> Map<Seq<u8>, Seq<u8>> {
        tree_entries(self.inner)
    }

    /// The records that the tree holds, by identifier.
    pub open spec fn records(&self) -> Map<u64, Seq<u8>> {
        records_of(self.entries())
    }

    /// The identifiers that the database of the tree has issued.
    pub closed spec fn issued(&self) -> Set<u64> {
        issued_ids(self.db)
    }

    /// Issues an identifier that was never issued before: it is above
    /// every identifier issued before.
    pub fn generate_id(&mut self) -> (r: Result<u64, StoreError>)
        ensures
            final(self).entries() == old(self).entries(),
            old(self).issued().subset_of(final(self).issued()),
            r matches Ok(id) ==> final(self).issued().contains(id) && is_above(
                id,
                old(self).issued(),
            ),
            r matches Err(e) ==> e is Sled,
    {
        match issue_id(&mut self.db) {
            Ok(id) => Ok(id),
            Err(e) => Err(StoreError::Sled(e)),
        }
    }

    /// The value of the record `id`, if the tree holds one.
    pub fn get(&self, id: u64) -> (r: Result<Option<Vec<u8>>, StoreError>)
        ensures
            r matches Ok(Some(value)) ==> self.records().contains_key(id) && self.records()[id]
                == value@,
            r matches Ok(None) ==> !self.records().contains_key(id),
            r matches Err(e) ==> e is Sled,
    {
        let key: Vec<u8> = encode_key(id);
        match tree_get(&self.inner, key.as_slice()) {
            Ok(found) => Ok(found),
            Err(e) => Err(StoreError::Sled(e)),
        }
    }

    /// Every entry of the tree, as key and value, in ascending order of
    /// the keys.
    pub fn iterate(&self) -> (r: Result<Vec<(Vec<u8>, Vec<u8>)>, StoreError>)
        ensures
            r matches Ok(list) ==> lists(pairs(list@), self.entries()),
            r matches Err(e) ==> e is Sled,
    {
        match tree_scan(&self.inner) {
            Ok(list) => Ok(list),
            Err(e) => Err(StoreError::Sled(e)),
        }
    }

    /// Applies the writes of `batch` together. Where the storage engine
    /// fails, it may have applied some of them.
    pub fn apply(&mut self, batch: WriteBatch) -> (r: Result<(), StoreError>)
        ensures
            final(self).issued() == old(self).issued(),
            r is Ok ==> final(self).entries() == apply_writes(old(self).entries(), batch.writes()),
            r matches Err(e) ==> e is Sled,
    {
        match tree_apply(&mut self.inner, batch.inner) {
            Ok(()) => Ok(()),
            Err(e) => Err(StoreError::Sled(e)),
        }
    }

    /// Sets the record `id` to `value`.
    pub fn insert(&mut self, id: u64, value: &[u8]) -> (r: Result<(), StoreError>)
        ensures
            final(self).issued() == old(self).issued(),
            r is Ok ==> final(self).entries() == old(self).entries().insert(key_of(id), value@),
            r matches Err(e) ==> e is Sled,
    {
        let mut batch: WriteBatch = WriteBatch::new();
        batch.insert(id, value);
        let r = self.apply(batch);
        r
    }

    /// Removes the record `id`, if the tree holds it.
    pub fn remove(&mut self, id: u64) -> (r: Result<(), StoreError>)
        ensures
            final(self).issued() == old(self).issued(),
            r is Ok ==> final(self).entries() == old(self).entries().remove(key_of(id)),
            r matches Err(e) ==> e is Sled,
    {
        let mut batch: WriteBatch = WriteBatch::new();
        batch.remove(id);
        let r = self.apply(batch);
        r
    }
}

/// The first of two options that is set.
pub open spec fn or_else<A>(first: Option<A>, second: Option<A>) -> Option<A> {
    if first is Some {
        first
    } else {
        second
    }
}

/// Builder for `RecordTree`.
pub struct TreeBuilder {
    pub tree_name: Option<String>,
    pub db: Option<sled::Db>,
}

impl Default for TreeBuilder {
    fn default() -> (builder: TreeBuilder)
        ensures
            builder.tree_name is None,
            builder.db is None,
    {
        TreeBuilder { tree_name: None, db: None }
    }
}

impl TreeBuilder {
    /// Fills what this builder leaves open from `other`: what this builder
    /// has set stays.
    pub fn merge(self, other: TreeBuilder) -> (merged: TreeBuilder)
        ensures
            merged.tree_name == or_else(self.tree_name, other.tree_name),
            merged.db == or_else(self.db, other.db),
    {
        let tree_name: Option<String> = match self.tree_name {
            Some(name) => Some(name),
            None => other.tree_name,
        };
        let db: Option<sled::Db> = match self.db {
            Some(db) => Some(db),
            None => other.db,
        };
        TreeBuilder { tree_name, db }
    }

    /// Set the name for this tree.
    pub fn with_tree_name(self, tree_name: &str) -> (builder: TreeBuilder)
        ensures
            builder.tree_name matches Some(name) && name@ == tree_name@,
            builder.db == self.db,
    {
        TreeBuilder { tree_name: Some(tree_name.to_string()), db: self.db }
    }

    /// Set the `sled::Db` for this tree.
    pub fn with_db(self, db: sled::Db) -> (builder: TreeBuilder)
        ensures
            builder.tree_name == self.tree_name,
            builder.db == Some(db),
    {
        TreeBuilder { tree_name: self.tree_name, db: Some(db) }
    }

    /// Convert into a finished `RecordTree`. Fails where the database or
    /// the name is not set, the database first, and where the storage engine
    /// cannot open the tree.
    pub fn finish(self) -> (r: Result<RecordTree, StoreError>)
        ensures
            self.db is None ==> (r matches Err(StoreError::Config(text)) && text@
                == "`db` not set"@),
            self.db is Some && self.tree_name is None ==> (r matches Err(
                StoreError::Config(text),
            ) && text@ == "`tree_name` not set"@),
            self.db is Some && self.tree_name is Some ==> (r is Ok || r matches Err(
                StoreError::Sled(_),
            )),
    {
        let db: sled::Db = match self.db {
            Some(db) => db,
            None => {
                return Err(misconfigured("`db` not set"));
            },
        };
        let tree_name: String = match self.tree_name {
            Some(name) => name,
            None => {
                return Err(misconfigured("`tree_name` not set"));
            },
        };
        match open_tree(&db, tree_name.as_str()) {
            Ok(inner) => Ok(RecordTree { inner, db }),
            Err(e) => Err(StoreError::Sled(e)),
        }
    }
}

} // verus!

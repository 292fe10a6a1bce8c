//! A searchable document datastore built on `sled` and `tantivy`.
//!
//! Provides a typed-tree interface to a `sled` database, with standard
//! datastore operations (`find`, `create`, `update`, `delete`), but also
//! Lucene-style searching.
//!
//! A [`Store`] keeps every record twice: its bytes in a tree of the
//! database, under the key of its identifier, and its index document in the
//! search index, stamped with the identifier in a reserved field. Reads by
//! identifier go to the tree alone; a search asks the index for scored
//! identifiers and fetches the records of the hits from the tree.
//!
//! # What is proved
//!
//! The library is verified with Verus. Its contracts speak of two models:
//! what the tree holds, as a map from keys to values, and what the index
//! writer was handed and has committed, as a sequence of operations. The
//! calls into `sled` and `tantivy` are small functions whose contracts are
//! believed, not proved; each says in its comment which function of the
//! engine it calls and what it claims of it. Everything above them is
//! proved: the order of results, the effect of every write on tree and
//! index, what a failed write leaves behind, and, in [`laws`], what holds
//! across operations.
//!
//! The contracts of the tree hold of a tree that is written through one
//! [`db::RecordTree`] only: a second handle of the same tree of the same
//! database writes behind the back of the first.
//!
//! # Usage
//!
//! A record type implements [`DocumentLike`]: it gives its bytes, declares
//! its index fields and builds its index document.
//!
//! ```ignore
//! let db = sled::open(dir.join("db"))?;
//! let mut store = pallet::Store::<Book>::builder().with_db(db).with_index_dir(dir).finish()?;
//! let _ = store.create_multi(&books)?;
//! let found = store.search("man AND rating:>8")?;
//! ```

pub mod db;
pub mod err;
pub mod ext;
pub mod laws;
pub mod search;
pub mod store;

pub use store::{Document, DocumentLike, Store, StoreBuilder};

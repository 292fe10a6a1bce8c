use pallet::db::{RecordTree, TreeBuilder, WriteBatch};
use pallet::err::StoreError;

fn open(dir: &tempfile::TempDir, name: &str) -> RecordTree {
    let db = sled::open(dir.path().join("db")).unwrap();
    match RecordTree::builder().with_db(db).with_tree_name(name).finish() {
        Ok(tree) => tree,
        Err(_) => panic!("the tree could not be opened"),
    }
}

fn config_text<T>(r: Result<T, StoreError>) -> String {
    match r {
        Err(StoreError::Config(text)) => text,
        _ => panic!("no configuration error"),
    }
}

#[test]
fn finish_without_database_fails() {
    assert_eq!(config_text(RecordTree::builder().finish()), "`db` not set");
    let named = TreeBuilder::default().with_tree_name("notes");
    assert_eq!(config_text(named.finish()), "`db` not set");
}

#[test]
fn finish_without_name_fails() {
    let dir = tempfile::TempDir::new().unwrap();
    let db = sled::open(dir.path().join("db")).unwrap();
    assert_eq!(config_text(TreeBuilder::default().with_db(db).finish()), "`tree_name` not set");
}

#[test]
fn tree_merge_prefers_what_is_set_first() {
    let dir = tempfile::TempDir::new().unwrap();
    let db = sled::open(dir.path().join("db")).unwrap();
    let mine = TreeBuilder::default().with_tree_name("mine");
    let other = TreeBuilder::default().with_tree_name("other").with_db(db);
    let merged = mine.merge(other);
    assert_eq!(merged.tree_name, Some("mine".to_string()));
    assert!(merged.db.is_some());
    let empty = TreeBuilder::default().merge(TreeBuilder::default());
    assert!(empty.tree_name.is_none() && empty.db.is_none());
    let filled = TreeBuilder::default().merge(TreeBuilder::default().with_tree_name("other"));
    assert_eq!(filled.tree_name, Some("other".to_string()));
}

#[test]
fn identifiers_ascend() {
    let dir = tempfile::TempDir::new().unwrap();
    let mut tree = open(&dir, "notes");
    let mut last = tree.generate_id().ok().unwrap();
    for _ in 0..50 {
        let next = tree.generate_id().ok().unwrap();
        assert!(last < next);
        last = next;
    }
}

#[test]
fn insert_get_remove() {
    let dir = tempfile::TempDir::new().unwrap();
    let mut tree = open(&dir, "notes");
    assert_eq!(tree.get(3).ok().unwrap(), None);
    assert!(tree.insert(3, &[1, 2, 3]).is_ok());
    assert_eq!(tree.get(3).ok().unwrap(), Some(vec![1, 2, 3]));
    assert!(tree.insert(3, &[4]).is_ok());
    assert_eq!(tree.get(3).ok().unwrap(), Some(vec![4]));
    assert_eq!(tree.get(4).ok().unwrap(), None);
    assert!(tree.remove(3).is_ok());
    assert_eq!(tree.get(3).ok().unwrap(), None);
    assert!(tree.remove(3).is_ok());
}

#[test]
fn batch_applies_all_writes_the_last_for_a_key() {
    let dir = tempfile::TempDir::new().unwrap();
    let mut tree = open(&dir, "notes");
    assert!(tree.insert(1, &[1]).is_ok());
    assert!(tree.insert(2, &[2]).is_ok());
    let mut batch = WriteBatch::new();
    batch.insert(3, &[3]);
    batch.remove(1);
    batch.insert(2, &[20]);
    batch.insert(4, &[4]);
    batch.remove(4);
    batch.remove(5);
    batch.insert(5, &[5]);
    assert!(tree.apply(batch).is_ok());
    assert_eq!(tree.get(1).ok().unwrap(), None);
    assert_eq!(tree.get(2).ok().unwrap(), Some(vec![20]));
    assert_eq!(tree.get(3).ok().unwrap(), Some(vec![3]));
    assert_eq!(tree.get(4).ok().unwrap(), None);
    assert_eq!(tree.get(5).ok().unwrap(), Some(vec![5]));
    assert!(tree.apply(WriteBatch::new()).is_ok());
    assert_eq!(tree.iterate().ok().unwrap().len(), 3);
}

#[test]
fn iterate_in_ascending_order_of_keys() {
    let dir = tempfile::TempDir::new().unwrap();
    let mut tree = open(&dir, "notes");
    assert!(tree.iterate().ok().unwrap().is_empty());
    for id in [2u64, 256, 1, 257, u64::MAX] {
        assert!(tree.insert(id, &[id as u8]).is_ok());
    }
    let listed = tree.iterate().ok().unwrap();
    let keys: Vec<Vec<u8>> = listed.iter().map(|entry| entry.0.clone()).collect();
    assert_eq!(
        keys,
        vec![
            vec![0, 1, 0, 0, 0, 0, 0, 0],
            vec![1, 0, 0, 0, 0, 0, 0, 0],
            vec![1, 1, 0, 0, 0, 0, 0, 0],
            vec![2, 0, 0, 0, 0, 0, 0, 0],
            vec![255; 8],
        ]
    );
    assert_eq!(listed[0].1, vec![0]);
    assert_eq!(listed[3].1, vec![2]);
}

#[test]
fn trees_of_one_database_are_apart() {
    let dir = tempfile::TempDir::new().unwrap();
    let db = sled::open(dir.path().join("db")).unwrap();
    let mut notes =
        TreeBuilder::default().with_db(db.clone()).with_tree_name("notes").finish().ok().unwrap();
    let books = TreeBuilder::default().with_db(db).with_tree_name("books").finish().ok().unwrap();
    assert!(notes.insert(1, &[1]).is_ok());
    assert_eq!(books.get(1).ok().unwrap(), None);
}

#[test]
fn dropped_tree_is_a_storage_error() {
    let dir = tempfile::TempDir::new().unwrap();
    let db = sled::open(dir.path().join("db")).unwrap();
    let mut tree =
        TreeBuilder::default().with_db(db.clone()).with_tree_name("notes").finish().ok().unwrap();
    assert!(tree.insert(1, &[1]).is_ok());
    assert!(db.drop_tree("notes").unwrap());
    assert!(matches!(tree.get(1), Err(StoreError::Sled(_))));
    assert!(matches!(tree.insert(2, &[2]), Err(StoreError::Sled(_))));
    assert!(matches!(tree.iterate(), Err(StoreError::Sled(_))));
}

use pallet::db::TreeBuilder;
use pallet::err::StoreError;
use pallet::search::{
    Count, IndexBuilder, Params, QueryContainer, Results, Score, ScoredId, ScoredIds,
};
use pallet::{Document, DocumentLike, Store, StoreBuilder};
use tantivy::schema::{Field, SchemaBuilder, FAST, INDEXED, TEXT};
use tantivy::TantivyDocument;

#[derive(Debug, Clone, PartialEq)]
pub struct Book {
    title: String,
    description: Option<String>,
    rating: u8,
}

pub struct BookFields {
    title: Field,
    description: Field,
    rating: Field,
}

impl DocumentLike for Book {
    type IndexFieldsType = BookFields;

    fn to_bytes(&self) -> Result<Vec<u8>, StoreError> {
        if self.rating > 10 {
            return Err(pallet::err::custom("a rating goes up to ten"));
        }
        bincode::serialize(&(&self.title, &self.description, self.rating))
            .map_err(StoreError::Bincode)
    }

    fn from_bytes(bytes: &[u8]) -> Result<Self, StoreError> {
        let (title, description, rating) =
            bincode::deserialize::<(String, Option<String>, u8)>(bytes)
                .map_err(StoreError::Bincode)?;
        Ok(Book { title, description, rating })
    }

    fn index_fields(schema_builder: &mut SchemaBuilder) -> Result<BookFields, StoreError> {
        Ok(BookFields {
            title: schema_builder.add_text_field("title", TEXT),
            description: schema_builder.add_text_field("description", TEXT),
            rating: schema_builder.add_u64_field("rating", INDEXED | FAST),
        })
    }

    fn default_search_fields(fields: &BookFields) -> Vec<Field> {
        vec![fields.title, fields.description]
    }

    fn as_index_document(&self, fields: &BookFields) -> Result<TantivyDocument, StoreError> {
        let mut doc = TantivyDocument::new();
        doc.add_text(fields.title, &self.title);
        if let Some(description) = &self.description {
            doc.add_text(fields.description, description);
        }
        doc.add_u64(fields.rating, u64::from(self.rating));
        Ok(doc)
    }

    fn tree_builder() -> TreeBuilder {
        TreeBuilder::default().with_tree_name("books")
    }
}

fn open_store(dir: &tempfile::TempDir) -> Store<Book> {
    let db = sled::open(dir.path().join("db")).unwrap();
    let built = Store::builder().with_db(db).with_index_dir(dir.path().to_str().unwrap()).finish();
    match built {
        Ok(store) => store,
        Err(_) => panic!("the store could not be opened"),
    }
}

fn book(title: &str, rating: u8) -> Book {
    Book { title: title.into(), description: None, rating }
}

fn old_man() -> Book {
    Book {
        title: "The Old Man and the Sea".into(),
        description: Some(
            "He was an old man who fished alone in a skiff in \
            the Gulf Stream and he had gone eighty-four days \
            now without taking a fish."
                .into(),
        ),
        rating: 10,
    }
}

fn gatsby() -> Book {
    Book {
        title: "The Great Gatsby".into(),
        description: Some("About a man and some other stuff".into()),
        rating: 8,
    }
}

fn run(store: &Store<Book>, query: &str) -> Results<Book> {
    match store.search(query) {
        Ok(results) => results,
        Err(_) => panic!("the search failed"),
    }
}

fn ids_of(results: &Results<Book>) -> Vec<u64> {
    results.hits.iter().map(|hit| hit.doc.id).collect()
}

#[test]
fn create_then_find_round_trips() {
    let dir = tempfile::TempDir::new().unwrap();
    let mut store = open_store(&dir);
    let id = store.create(&old_man()).ok().unwrap();
    let found: Option<Document<Book>> = store.find(id).ok().unwrap();
    let found = found.unwrap();
    assert_eq!(found.id, id);
    assert_eq!(found.inner, old_man());
}

#[test]
fn find_of_unknown_identifier_is_none() {
    let dir = tempfile::TempDir::new().unwrap();
    let mut store = open_store(&dir);
    let id = store.create(&old_man()).ok().unwrap();
    assert!(store.find(id + 1).ok().unwrap().is_none());
}

#[test]
fn create_multi_returns_ascending_identifiers() {
    let dir = tempfile::TempDir::new().unwrap();
    let mut store = open_store(&dir);
    let books = vec![old_man(), gatsby(), book("Cabin in the Woods", 9)];
    let ids = store.create_multi(&books).ok().unwrap();
    assert_eq!(ids.len(), 3);
    assert!(ids[0] < ids[1] && ids[1] < ids[2]);
    let more = store.create_multi(&books).ok().unwrap();
    assert!(ids[2] < more[0]);
    for (id, inner) in ids.iter().zip(books.iter()) {
        assert_eq!(&store.find(*id).ok().unwrap().unwrap().inner, inner);
    }
}

#[test]
fn create_multi_of_nothing_returns_nothing() {
    let dir = tempfile::TempDir::new().unwrap();
    let mut store = open_store(&dir);
    assert_eq!(store.create_multi(&[]).ok().unwrap(), Vec::<u64>::new());
    assert_eq!(store.all().ok().unwrap().len(), 0);
}

#[test]
fn search_with_conjunction_and_range() {
    let dir = tempfile::TempDir::new().unwrap();
    let mut store = open_store(&dir);
    let ids = store.create_multi(&[old_man(), gatsby()]).ok().unwrap();
    let results = run(&store, "man AND rating:>8");
    assert_eq!(results.count, 1);
    assert_eq!(results.hits.len(), 1);
    assert_eq!(results.hits[0].doc.id, ids[0]);
    assert_eq!(results.hits[0].doc.inner, old_man());
}

#[test]
fn search_without_match_is_empty() {
    let dir = tempfile::TempDir::new().unwrap();
    let mut store = open_store(&dir);
    store.create_multi(&[old_man(), gatsby()]).ok().unwrap();
    let results = run(&store, "nonexistent_term_xyz");
    assert_eq!(results.count, 0);
    assert!(results.hits.is_empty());
}

#[test]
fn search_of_empty_store_is_empty() {
    let dir = tempfile::TempDir::new().unwrap();
    let store = open_store(&dir);
    let results = run(&store, "man");
    assert_eq!(results.count, 0);
    assert!(results.hits.is_empty());
}

#[test]
fn search_finds_created_record_by_default_field() {
    let dir = tempfile::TempDir::new().unwrap();
    let mut store = open_store(&dir);
    let id = store.create(&gatsby()).ok().unwrap();
    let by_title = run(&store, "gatsby");
    assert_eq!(ids_of(&by_title), vec![id]);
    assert_eq!(by_title.hits[0].doc.inner, gatsby());
    let by_description = run(&store, "stuff");
    assert_eq!(ids_of(&by_description), vec![id]);
}

#[test]
fn terms_side_by_side_must_all_match() {
    let dir = tempfile::TempDir::new().unwrap();
    let mut store = open_store(&dir);
    let ids = store.create_multi(&[old_man(), gatsby()]).ok().unwrap();
    assert_eq!(ids_of(&run(&store, "man gatsby")), vec![ids[1]]);
    let either = run(&store, "sea OR gatsby");
    assert_eq!(either.count, 2);
}

#[test]
fn field_qualified_term_and_lower_range() {
    let dir = tempfile::TempDir::new().unwrap();
    let mut store = open_store(&dir);
    let ids = store.create_multi(&[old_man(), gatsby()]).ok().unwrap();
    assert_eq!(ids_of(&run(&store, "title:gatsby")), vec![ids[1]]);
    assert_eq!(ids_of(&run(&store, "rating:<9")), vec![ids[1]]);
    assert!(run(&store, "title:skiff").hits.is_empty());
}

#[test]
fn malformed_query_is_a_query_error() {
    let dir = tempfile::TempDir::new().unwrap();
    let store = open_store(&dir);
    assert!(matches!(store.search("title:("), Err(StoreError::Query(_))));
    assert!(matches!(store.search("no_such_field:x"), Err(StoreError::Query(_))));
}

#[test]
fn update_replaces_record_and_projection() {
    let dir = tempfile::TempDir::new().unwrap();
    let mut store = open_store(&dir);
    let ids = store.create_multi(&[old_man(), gatsby()]).ok().unwrap();
    let changed = Document { id: ids[1], inner: book("Tender is the Night", 7) };
    assert!(store.update(&changed).is_ok());
    assert_eq!(store.find(ids[1]).ok().unwrap().unwrap().inner, changed.inner);
    assert!(run(&store, "gatsby").hits.is_empty());
    assert_eq!(run(&store, "gatsby").count, 0);
    let after = run(&store, "tender");
    assert_eq!(ids_of(&after), vec![ids[1]]);
    assert_eq!(after.hits[0].doc.inner, changed.inner);
    assert_eq!(store.find(ids[0]).ok().unwrap().unwrap().inner, old_man());
}

#[test]
fn update_multi_takes_the_last_of_a_repeated_identifier() {
    let dir = tempfile::TempDir::new().unwrap();
    let mut store = open_store(&dir);
    let id = store.create(&gatsby()).ok().unwrap();
    let docs = vec![
        Document { id, inner: book("First Draft", 1) },
        Document { id, inner: book("Second Draft", 2) },
    ];
    assert!(store.update_multi(&docs).is_ok());
    assert_eq!(store.find(id).ok().unwrap().unwrap().inner, book("Second Draft", 2));
    assert_eq!(run(&store, "draft").count, 1);
    assert!(run(&store, "first").hits.is_empty());
}

#[test]
fn update_of_unknown_identifier_stores_it() {
    let dir = tempfile::TempDir::new().unwrap();
    let mut store = open_store(&dir);
    let doc = Document { id: 77, inner: gatsby() };
    assert!(store.update(&doc).is_ok());
    assert_eq!(store.find(77).ok().unwrap().unwrap().inner, gatsby());
    assert_eq!(ids_of(&run(&store, "gatsby")), vec![77]);
}

#[test]
fn delete_removes_record_and_hits() {
    let dir = tempfile::TempDir::new().unwrap();
    let mut store = open_store(&dir);
    let ids = store.create_multi(&[old_man(), gatsby()]).ok().unwrap();
    assert_eq!(run(&store, "man").count, 2);
    assert!(store.delete(ids[0]).is_ok());
    assert!(store.find(ids[0]).ok().unwrap().is_none());
    let after = run(&store, "man");
    assert_eq!(after.count, 1);
    assert_eq!(ids_of(&after), vec![ids[1]]);
    assert!(store.delete(ids[0]).is_ok());
    assert!(store.delete_multi(&[ids[1], ids[1]]).is_ok());
    assert_eq!(store.all().ok().unwrap().len(), 0);
    assert_eq!(run(&store, "man").count, 0);
}

#[test]
fn all_returns_documents_in_key_order() {
    let dir = tempfile::TempDir::new().unwrap();
    let mut store = open_store(&dir);
    let high: u64 = 1 << 8;
    let docs = vec![
        Document { id: high, inner: book("Least significant byte zero", 1) },
        Document { id: 2, inner: book("Two", 2) },
        Document { id: 1, inner: book("One", 3) },
    ];
    assert!(store.update_multi(&docs).is_ok());
    let all = store.all().ok().unwrap();
    let ids: Vec<u64> = all.iter().map(|doc| doc.id).collect();
    assert_eq!(ids, vec![high, 1, 2]);
    assert_eq!(all[1].inner, book("One", 3));
}

#[test]
fn index_all_restores_the_index() {
    let dir = tempfile::TempDir::new().unwrap();
    let ids = {
        let mut store = open_store(&dir);
        store.create_multi(&[old_man(), gatsby()]).ok().unwrap()
    };
    let mut store = open_store(&dir);
    assert!(store.index_all().is_ok());
    let found = run(&store, "man");
    assert_eq!(found.count, 2);
    assert_eq!(found.hits.len(), 2);
    assert!(ids_of(&found).contains(&ids[0]) && ids_of(&found).contains(&ids[1]));
}

#[test]
fn failed_encoding_leaves_the_store_as_it_was() {
    let dir = tempfile::TempDir::new().unwrap();
    let mut store = open_store(&dir);
    let id = store.create(&gatsby()).ok().unwrap();
    let r = store.create_multi(&[old_man(), book("Too good", 11)]);
    assert!(matches!(r, Err(StoreError::Custom(_))));
    assert_eq!(store.all().ok().unwrap().len(), 1);
    assert!(store.create(&book("Next", 1)).is_ok());
    assert_eq!(run(&store, "sea").count, 0);
    assert_eq!(ids_of(&run(&store, "gatsby")), vec![id]);
}

#[test]
fn hits_are_ranked_by_score_then_identifier() {
    let dir = tempfile::TempDir::new().unwrap();
    let mut store = open_store(&dir);
    let books = vec![
        book("whale and more words that do not match at all", 1),
        book("whale whale", 2),
        book("whale whale whale", 3),
        book("whale whale", 4),
    ];
    let ids = store.create_multi(&books).ok().unwrap();
    let results = run(&store, "whale");
    assert_eq!(results.count, 4);
    assert_eq!(ids_of(&results), vec![ids[2], ids[1], ids[3], ids[0]]);
    let scores: Vec<f32> = results.hits.iter().map(|hit| f32::from_bits(hit.score.bits)).collect();
    assert!(scores[0] > scores[1] && scores[1] == scores[2] && scores[2] > scores[3]);
}

#[test]
fn structured_query_is_used_as_it_is() {
    let dir = tempfile::TempDir::new().unwrap();
    let mut store = open_store(&dir);
    let ids = store.create_multi(&[old_man(), gatsby()]).ok().unwrap();
    let term = tantivy::Term::from_field_u64(store.index.fields.rating, 8);
    let query = tantivy::query::TermQuery::new(term, tantivy::schema::IndexRecordOption::Basic);
    let query = QueryContainer { inner: Box::new(query) };
    let results = match store.search(query) {
        Ok(results) => results,
        Err(_) => panic!("the search failed"),
    };
    assert_eq!(ids_of(&results), vec![ids[1]]);
}

#[test]
fn params_compose_query_collector_and_handler() {
    let dir = tempfile::TempDir::new().unwrap();
    let mut store = open_store(&dir);
    let ids = store.create_multi(&[old_man(), gatsby()]).ok().unwrap();
    let collector = (Count, ScoredIds { size_hint: None, id_field: store.index.id_field() });
    let params = Params::default()
        .with_query("man")
        .with_collector(collector)
        .with_handler(|(count, scored): (usize, Vec<ScoredId>)| -> Result<Vec<u64>, StoreError> {
            assert_eq!(count, scored.len());
            Ok(scored.into_iter().map(|scored| scored.id).collect())
        });
    let mut found = store.search(params).ok().unwrap();
    found.sort();
    assert_eq!(found, ids);
}

#[test]
fn handler_first_then_collector() {
    let dir = tempfile::TempDir::new().unwrap();
    let mut store = open_store(&dir);
    store.create_multi(&[old_man(), gatsby()]).ok().unwrap();
    let params = Params::default()
        .with_query("gatsby")
        .with_handler::<Count, _>(|count: usize| -> Result<usize, StoreError> { Ok(count * 10) })
        .with_collector(Count);
    assert_eq!(store.search(params).ok().unwrap(), 10);
}

fn config_text<T>(r: Result<T, StoreError>) -> String {
    match r {
        Err(StoreError::Config(text)) => text,
        _ => panic!("no configuration error"),
    }
}

#[test]
fn builder_reports_what_is_missing_in_order() {
    let dir = tempfile::TempDir::new().unwrap();
    let path = dir.path().to_str().unwrap();
    assert_eq!(config_text(Store::<Book>::builder().finish()), "`db` not set");
    assert_eq!(config_text(Store::<Book>::builder().with_index_dir(path).finish()), "`db` not set");
    let db = sled::open(dir.path().join("db")).unwrap();
    let without_dir = Store::<Book>::builder().with_db(db.clone()).finish();
    assert_eq!(config_text(without_dir), "`index_dir` not set");
    let without_name = StoreBuilder::<Book>::default()
        .with_db(db)
        .with_index_dir(path)
        .finish_with(TreeBuilder::default(), IndexBuilder::default());
    assert_eq!(config_text(without_name), "`tree_name` not set");
}

#[test]
fn builder_takes_tree_and_index_builders() {
    let dir = tempfile::TempDir::new().unwrap();
    let db = sled::open(dir.path().join("db")).unwrap();
    let tree_builder = TreeBuilder::default().with_db(db.clone()).with_tree_name("shelf");
    let index_builder =
        IndexBuilder::default().with_id_field_name("key").with_index_dir(dir.path().to_str().unwrap());
    let built = Store::<Book>::builder()
        .with_tree_builder(tree_builder)
        .with_index_builder(index_builder)
        .finish();
    let mut store = match built {
        Ok(store) => store,
        Err(_) => panic!("the store could not be opened"),
    };
    assert_eq!(store.index().id_field_name(), "key");
    let id = store.create(&gatsby()).ok().unwrap();
    assert!(db.open_tree("shelf").unwrap().contains_key(id.to_le_bytes()).unwrap());
    assert!(db.open_tree("books").unwrap().is_empty());
    assert_eq!(ids_of(&run(&store, "gatsby")), vec![id]);
}

#[test]
fn record_is_kept_under_its_key_as_its_bytes() {
    let dir = tempfile::TempDir::new().unwrap();
    let db = sled::open(dir.path().join("db")).unwrap();
    let built =
        Store::<Book>::builder().with_db(db.clone()).with_index_dir(dir.path().to_str().unwrap());
    let mut store = built.finish().ok().unwrap();
    let id = store.create(&gatsby()).ok().unwrap();
    let raw = db.open_tree("books").unwrap().get(id.to_le_bytes()).unwrap().unwrap();
    assert_eq!(raw.to_vec(), gatsby().to_bytes().ok().unwrap());
}

#[test]
fn undecodable_record_is_an_encoding_error() {
    let dir = tempfile::TempDir::new().unwrap();
    let db = sled::open(dir.path().join("db")).unwrap();
    let built =
        Store::<Book>::builder().with_db(db.clone()).with_index_dir(dir.path().to_str().unwrap());
    let mut store = built.finish().ok().unwrap();
    let id = store.create(&gatsby()).ok().unwrap();
    db.open_tree("books").unwrap().insert(9u64.to_le_bytes(), vec![255u8]).unwrap();
    assert!(matches!(store.find(9), Err(StoreError::Bincode(_))));
    assert!(store.find(id).is_ok());
    assert!(matches!(store.all(), Err(StoreError::Bincode(_))));
    assert!(matches!(store.index_all(), Err(StoreError::Bincode(_))));
}

#[test]
fn key_that_is_no_identifier_fails_all() {
    let dir = tempfile::TempDir::new().unwrap();
    let db = sled::open(dir.path().join("db")).unwrap();
    let built =
        Store::<Book>::builder().with_db(db.clone()).with_index_dir(dir.path().to_str().unwrap());
    let mut store = built.finish().ok().unwrap();
    store.create(&gatsby()).ok().unwrap();
    db.open_tree("books").unwrap().insert(b"abc", gatsby().to_bytes().ok().unwrap()).unwrap();
    match store.all() {
        Err(StoreError::Custom(text)) => assert_eq!(text, "could not convert slice to array"),
        _ => panic!("no custom error"),
    }
}

#[test]
fn dropped_tree_fails_the_store_with_a_storage_error() {
    let dir = tempfile::TempDir::new().unwrap();
    let db = sled::open(dir.path().join("db")).unwrap();
    let built =
        Store::<Book>::builder().with_db(db.clone()).with_index_dir(dir.path().to_str().unwrap());
    let mut store = built.finish().ok().unwrap();
    let id = store.create(&gatsby()).ok().unwrap();
    assert!(db.drop_tree("books").unwrap());
    assert!(matches!(store.find(id), Err(StoreError::Sled(_))));
    assert!(matches!(store.all(), Err(StoreError::Sled(_))));
    assert!(matches!(store.search("gatsby"), Err(StoreError::Sled(_))));
    assert!(matches!(store.create(&old_man()), Err(StoreError::Sled(_))));
    assert!(matches!(store.delete(id), Err(StoreError::Sled(_))));
    assert!(matches!(store.update(&Document { id, inner: old_man() }), Err(StoreError::Sled(_))));
    let reader = store.index().inner().reader().unwrap();
    assert_eq!(reader.searcher().num_docs(), 1);
}

#[test]
fn hits_keep_order_and_pass_over_unknown_identifiers() {
    let dir = tempfile::TempDir::new().unwrap();
    let mut store = open_store(&dir);
    let ids = store.create_multi(&[old_man(), gatsby()]).ok().unwrap();
    let score = |value: f32| Score::from_bits(value.to_bits());
    let scored = vec![
        ScoredId { id: ids[1], score: score(0.5) },
        ScoredId { id: ids[1] + 100, score: score(9.0) },
        ScoredId { id: ids[0], score: score(0.25) },
        ScoredId { id: ids[1], score: score(0.125) },
    ];
    let results = store.hits(42, scored).ok().unwrap();
    assert_eq!(results.count, 42);
    assert_eq!(ids_of(&results), vec![ids[1], ids[0], ids[1]]);
    assert_eq!(results.hits[0].score, score(0.5));
    assert_eq!(results.hits[1].doc.inner, old_man());
    assert_eq!(results.hits[2].score, score(0.125));
    let lone = store.hit(ScoredId { id: ids[0], score: score(1.0) }).ok().unwrap().unwrap();
    assert_eq!(lone.doc.inner, old_man());
    assert!(store.hit(ScoredId { id: ids[1] + 1, score: score(1.0) }).ok().unwrap().is_none());
    assert!(store.hits(0, Vec::new()).ok().unwrap().hits.is_empty());
}

#[test]
fn decode_gives_the_document_of_the_identifier() {
    let bytes = gatsby().to_bytes().ok().unwrap();
    let doc = Store::<Book>::decode(5, &bytes).ok().unwrap();
    assert_eq!(doc.id, 5);
    assert_eq!(doc.inner, gatsby());
    assert!(matches!(Store::<Book>::decode(5, &[1, 2]), Err(StoreError::Bincode(_))));
}

#[test]
fn document_gives_way_to_its_record() {
    let mut doc = Document { id: 3, inner: gatsby() };
    assert_eq!(doc.rating, 8);
    doc.rating = 9;
    assert_eq!(doc.inner.rating, 9);
    assert_eq!(doc.id, 3);
    assert_eq!(doc.clone().inner, doc.inner);
}

#[test]
fn index_all_fills_an_index_that_lacks_the_records() {
    let dir = tempfile::TempDir::new().unwrap();
    let other = tempfile::TempDir::new().unwrap();
    let db = sled::open(dir.path().join("db")).unwrap();
    let ids = {
        let built = Store::<Book>::builder()
            .with_db(db.clone())
            .with_index_dir(dir.path().to_str().unwrap());
        let mut store = built.finish().ok().unwrap();
        store.create_multi(&[old_man(), gatsby()]).ok().unwrap()
    };
    let built =
        Store::<Book>::builder().with_db(db).with_index_dir(other.path().to_str().unwrap());
    let mut store = built.finish().ok().unwrap();
    assert_eq!(store.all().ok().unwrap().len(), 2);
    assert_eq!(run(&store, "man").count, 0);
    assert!(store.index_all().is_ok());
    let found = run(&store, "man");
    assert_eq!(found.count, 2);
    let mut found = ids_of(&found);
    found.sort();
    assert_eq!(found, ids);
    assert!(store.index_all().is_ok());
    assert_eq!(run(&store, "man").count, 2);
}

#[test]
fn reindex_replaces_the_projection_and_leaves_the_tree() {
    let dir = tempfile::TempDir::new().unwrap();
    let mut store = open_store(&dir);
    let id = store.create(&gatsby()).ok().unwrap();
    let changed = Document { id, inner: book("Tender is the Night", 7) };
    assert!(store.reindex(&[changed]).is_ok());
    assert_eq!(store.find(id).ok().unwrap().unwrap().inner, gatsby());
    assert_eq!(run(&store, "gatsby").count, 0);
    let found = run(&store, "tender");
    assert_eq!(found.count, 1);
    assert_eq!(found.hits[0].doc.inner, gatsby());
}

#[test]
fn hit_count_includes_documents_without_record() {
    let dir = tempfile::TempDir::new().unwrap();
    let mut store = open_store(&dir);
    let id = store.create(&gatsby()).ok().unwrap();
    assert!(store.reindex(&[Document { id: id + 50, inner: gatsby() }]).is_ok());
    let found = run(&store, "gatsby");
    assert_eq!(found.count, 2);
    assert_eq!(ids_of(&found), vec![id]);
}

#[test]
fn store_reopens_with_its_records_and_index() {
    let dir = tempfile::TempDir::new().unwrap();
    let ids = {
        let mut store = open_store(&dir);
        store.create_multi(&[old_man(), gatsby()]).ok().unwrap()
    };
    let mut store = open_store(&dir);
    assert_eq!(store.find(ids[0]).ok().unwrap().unwrap().inner, old_man());
    assert_eq!(run(&store, "gatsby").count, 1);
    let next = store.create(&book("Cabin in the Woods", 9)).ok().unwrap();
    assert!(next > ids[1]);
    assert_eq!(store.all().ok().unwrap().len(), 3);
}

fn indexed_ids(store: &Store<Book>) -> Vec<u64> {
    let everything = QueryContainer { inner: Box::new(tantivy::query::AllQuery) };
    let (count, scored) = store.index().matches(&everything).ok().unwrap();
    assert_eq!(count, scored.len());
    let mut ids: Vec<u64> = scored.iter().map(|scored| scored.id).collect();
    ids.sort();
    ids
}

fn stored_ids(store: &Store<Book>) -> Vec<u64> {
    let mut ids: Vec<u64> = store.all().ok().unwrap().iter().map(|doc| doc.id).collect();
    ids.sort();
    ids
}

#[test]
fn tree_and_index_agree_after_writes() {
    let dir = tempfile::TempDir::new().unwrap();
    let mut store = open_store(&dir);
    assert_eq!(indexed_ids(&store), stored_ids(&store));
    let ids = store
        .create_multi(&[old_man(), gatsby(), book("Cabin in the Woods", 9), book("Dune", 10)])
        .ok()
        .unwrap();
    assert_eq!(indexed_ids(&store), ids);
    assert_eq!(stored_ids(&store), ids);
    assert!(store.update(&Document { id: ids[1], inner: book("Tender is the Night", 7) }).is_ok());
    assert_eq!(indexed_ids(&store), ids);
    assert!(store.delete_multi(&[ids[0], ids[2]]).is_ok());
    assert_eq!(indexed_ids(&store), vec![ids[1], ids[3]]);
    assert_eq!(stored_ids(&store), vec![ids[1], ids[3]]);
    let docs = vec![
        Document { id: ids[3], inner: book("Dune Messiah", 8) },
        Document { id: ids[0], inner: old_man() },
    ];
    assert!(store.update_multi(&docs).is_ok());
    assert_eq!(indexed_ids(&store), vec![ids[0], ids[1], ids[3]]);
    assert_eq!(stored_ids(&store), vec![ids[0], ids[1], ids[3]]);
    let next = store.create(&gatsby()).ok().unwrap();
    assert!(next > ids[3]);
    assert_eq!(indexed_ids(&store), stored_ids(&store));
    assert!(store.index_all().is_ok());
    assert_eq!(indexed_ids(&store), stored_ids(&store));
}

#[test]
fn created_identifiers_were_held_by_no_record() {
    let dir = tempfile::TempDir::new().unwrap();
    let mut store = open_store(&dir);
    let first = store.create_multi(&[old_man(), gatsby()]).ok().unwrap();
    let second = store.create_multi(&[book("Dune", 10)]).ok().unwrap();
    assert!(!first.contains(&second[0]));
    assert_eq!(store.find(first[0]).ok().unwrap().unwrap().inner, old_man());
    assert_eq!(store.find(first[1]).ok().unwrap().unwrap().inner, gatsby());
    assert_eq!(store.all().ok().unwrap().len(), 3);
}

#[test]
fn index_with_another_schema_is_a_search_error() {
    let dir = tempfile::TempDir::new().unwrap();
    {
        let mut store = open_store(&dir);
        store.create(&gatsby()).ok().unwrap();
    }
    let db = sled::open(dir.path().join("db")).unwrap();
    let index_builder = IndexBuilder::default().with_id_field_name("key");
    let built = Store::<Book>::builder()
        .with_db(db)
        .with_index_builder(index_builder)
        .with_index_dir(dir.path().to_str().unwrap())
        .finish();
    assert!(matches!(built, Err(StoreError::Tantivy(_))));
}

#[test]
fn many_records_are_found_in_order() {
    let dir = tempfile::TempDir::new().unwrap();
    let mut store = open_store(&dir);
    let books: Vec<Book> = (0..3000u32).map(|n| book("whale", (n % 10) as u8)).collect();
    let ids = store.create_multi(&books).ok().unwrap();
    let results = run(&store, "whale");
    assert_eq!(results.count, 3000);
    assert_eq!(ids_of(&results), ids);
}

#[test]
fn builder_reports_a_name_that_is_no_field_name() {
    let dir = tempfile::TempDir::new().unwrap();
    let db = sled::open(dir.path().join("db")).unwrap();
    let index_builder = IndexBuilder::default().with_id_field_name("-key");
    let built = Store::<Book>::builder()
        .with_db(db)
        .with_index_builder(index_builder)
        .with_index_dir(dir.path().to_str().unwrap())
        .finish();
    assert_eq!(config_text(built), "`id_field_name` not valid");
}

#[test]
fn finished_store_has_the_setup_of_the_record_type() {
    let dir = tempfile::TempDir::new().unwrap();
    let store = open_store(&dir);
    let index = store.index();
    assert_eq!(index.id_field(), 0);
    assert_eq!(index.id_field_name(), "__id__");
    let fields = index.fields();
    assert_eq!(index.default_search_fields().to_vec(), vec![fields.title, fields.description]);
}

/// A record type whose default search field is no field of its schema.
#[derive(Debug, Clone, PartialEq)]
pub struct Stray(u8);

impl DocumentLike for Stray {
    type IndexFieldsType = Field;

    fn to_bytes(&self) -> Result<Vec<u8>, StoreError> {
        Ok(vec![self.0])
    }

    fn from_bytes(bytes: &[u8]) -> Result<Self, StoreError> {
        Ok(Stray(bytes[0]))
    }

    fn index_fields(schema_builder: &mut SchemaBuilder) -> Result<Field, StoreError> {
        Ok(schema_builder.add_text_field("text", TEXT))
    }

    fn default_search_fields(_fields: &Field) -> Vec<Field> {
        vec![Field::from_field_id(7)]
    }

    fn as_index_document(&self, fields: &Field) -> Result<TantivyDocument, StoreError> {
        let mut doc = TantivyDocument::new();
        doc.add_text(*fields, "stray");
        Ok(doc)
    }

    fn tree_builder() -> TreeBuilder {
        TreeBuilder::default().with_tree_name("strays")
    }
}

#[test]
fn search_over_a_stray_default_field_is_a_configuration_error() {
    let dir = tempfile::TempDir::new().unwrap();
    let db = sled::open(dir.path().join("db")).unwrap();
    let built =
        Store::<Stray>::builder().with_db(db).with_index_dir(dir.path().to_str().unwrap());
    let mut store = built.finish().ok().unwrap();
    let id = store.create(&Stray(3)).ok().unwrap();
    assert_eq!(store.find(id).ok().unwrap().unwrap().inner, Stray(3));
    match store.search("stray") {
        Err(StoreError::Config(text)) => assert_eq!(text, "`default_search_fields` not in schema"),
        _ => panic!("no configuration error"),
    }
    let found = store.search("text:stray");
    assert!(matches!(found, Err(StoreError::Config(_))));
    let built_query = QueryContainer { inner: Box::new(tantivy::query::AllQuery) };
    assert_eq!(store.search(built_query).ok().unwrap().count, 1);
}

#[test]
fn params_answer_what_the_engine_has_matched() {
    let score = |value: f32| Score::from_bits(value.to_bits());
    let matches =
        vec![ScoredId { id: 4, score: score(2.0) }, ScoredId { id: 9, score: score(1.0) }];
    let params = Params::default()
        .with_query("unused")
        .with_collector((Count, ScoredIds { size_hint: None, id_field: 0 }))
        .with_handler(|(count, scored): (usize, Vec<ScoredId>)| -> Result<u64, StoreError> {
            Ok(scored.iter().map(|scored| scored.id).sum::<u64>() + count as u64)
        });
    assert_eq!(params.answer(5, &matches).ok().unwrap(), 18);
    let failing = Params::default()
        .with_query("unused")
        .with_collector(Count)
        .with_handler(|_count: usize| -> Result<u8, StoreError> { Err(pallet::err::custom("no")) });
    assert!(matches!(failing.answer(1, &matches), Err(StoreError::Custom(_))));
}

#[test]
fn params_fail_with_the_failure_of_the_query() {
    let dir = tempfile::TempDir::new().unwrap();
    let store = open_store(&dir);
    let params = Params::default()
        .with_query("title:(")
        .with_collector(Count)
        .with_handler(|_count: usize| -> Result<usize, StoreError> {
            panic!("the handler was asked")
        });
    assert!(matches!(store.search(params), Err(StoreError::Query(_))));
}

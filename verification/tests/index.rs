use pallet::db::TreeBuilder;
use pallet::err::StoreError;
use pallet::search::{
    AsQuery, FieldsContainer, IndexBuilder, IndexConfig, QueryContainer, SearchIndex,
    DEFAULT_ID_FIELD_NAME, DEFAULT_WRITER_BUDGET,
};
use pallet::DocumentLike;
use tantivy::schema::{Field, SchemaBuilder, TEXT};
use tantivy::TantivyDocument;

#[derive(Debug, Clone, PartialEq)]
pub struct Note {
    text: String,
}

impl DocumentLike for Note {
    type IndexFieldsType = FieldsContainer;

    fn to_bytes(&self) -> Result<Vec<u8>, StoreError> {
        Ok(self.text.as_bytes().to_vec())
    }

    fn from_bytes(bytes: &[u8]) -> Result<Self, StoreError> {
        match String::from_utf8(bytes.to_vec()) {
            Ok(text) => Ok(Note { text }),
            Err(_) => Err(pallet::err::custom("a note is text")),
        }
    }

    fn index_fields(schema_builder: &mut SchemaBuilder) -> Result<FieldsContainer, StoreError> {
        Ok(FieldsContainer(vec![schema_builder.add_text_field("text", TEXT)]))
    }

    fn default_search_fields(fields: &FieldsContainer) -> Vec<Field> {
        vec![fields.0[0]]
    }

    fn as_index_document(&self, fields: &FieldsContainer) -> Result<TantivyDocument, StoreError> {
        let mut doc = TantivyDocument::new();
        doc.add_text(fields.0[0], &self.text);
        Ok(doc)
    }

    fn tree_builder() -> TreeBuilder {
        TreeBuilder::default().with_tree_name("notes")
    }
}

/// A record type that cannot declare its fields.
pub struct Broken;

impl DocumentLike for Broken {
    type IndexFieldsType = ();

    fn to_bytes(&self) -> Result<Vec<u8>, StoreError> {
        Ok(Vec::new())
    }

    fn from_bytes(_bytes: &[u8]) -> Result<Self, StoreError> {
        Ok(Broken)
    }

    fn index_fields(_schema_builder: &mut SchemaBuilder) -> Result<(), StoreError> {
        Err(pallet::err::custom("no fields"))
    }

    fn default_search_fields(_fields: &()) -> Vec<Field> {
        Vec::new()
    }

    fn as_index_document(&self, _fields: &()) -> Result<TantivyDocument, StoreError> {
        Ok(TantivyDocument::new())
    }
}

fn builder(dir: &tempfile::TempDir) -> IndexBuilder<FieldsContainer> {
    SearchIndex::builder().with_index_dir(dir.path().to_str().unwrap())
}

fn open(dir: &tempfile::TempDir) -> SearchIndex<FieldsContainer> {
    match builder(dir).finish::<Note>() {
        Ok(index) => index,
        Err(_) => panic!("the index could not be opened"),
    }
}

fn doc(index: &SearchIndex<FieldsContainer>, text: &str) -> TantivyDocument {
    Note { text: text.to_string() }.as_index_document(index.fields()).ok().unwrap()
}

fn query(index: &SearchIndex<FieldsContainer>, text: &str) -> QueryContainer {
    text.as_query(index.inner(), index.default_search_fields()).ok().unwrap()
}

fn found(index: &SearchIndex<FieldsContainer>, text: &str) -> (usize, Vec<u64>) {
    let (count, scored) = index.matches(&query(index, text)).ok().unwrap();
    (count, scored.iter().map(|scored| scored.id).collect())
}

#[test]
fn defaults_are_as_documented() {
    assert_eq!(DEFAULT_ID_FIELD_NAME, "__id__");
    assert_eq!(DEFAULT_WRITER_BUDGET, 128_000_000);
}

#[test]
fn finish_without_directory_fails() {
    let built = SearchIndex::<FieldsContainer>::builder().finish::<Note>();
    match built {
        Err(StoreError::Config(text)) => assert_eq!(text, "`index_dir` not set"),
        _ => panic!("no configuration error"),
    }
    let named = IndexBuilder::<FieldsContainer>::default().with_id_field_name("id");
    assert!(matches!(named.finish::<Note>(), Err(StoreError::Config(_))));
}

#[test]
fn finish_in_missing_directory_is_a_search_error() {
    let dir = tempfile::TempDir::new().unwrap();
    let missing = dir.path().join("nowhere");
    let built = SearchIndex::<FieldsContainer>::builder()
        .with_index_dir(missing.to_str().unwrap())
        .finish::<Note>();
    assert!(matches!(built, Err(StoreError::Tantivy(_))));
}

#[test]
fn finish_with_too_small_a_budget_is_a_search_error() {
    let dir = tempfile::TempDir::new().unwrap();
    let built = builder(&dir).with_writer_accessor(1).finish::<Note>();
    assert!(matches!(built, Err(StoreError::Tantivy(_))));
}

#[test]
fn finish_hands_on_the_failure_of_the_record_type() {
    let dir = tempfile::TempDir::new().unwrap();
    let built = SearchIndex::<()>::builder()
        .with_index_dir(dir.path().to_str().unwrap())
        .finish::<Broken>();
    match built {
        Err(StoreError::Custom(text)) => assert_eq!(text, "no fields"),
        _ => panic!("no custom error"),
    }
}

#[test]
fn identifier_field_comes_first_under_its_name() {
    let dir = tempfile::TempDir::new().unwrap();
    let index = open(&dir);
    assert_eq!(index.id_field(), 0);
    assert_eq!(index.id_field_name(), "__id__");
    let schema = index.inner().schema();
    assert_eq!(schema.get_field("__id__").unwrap().field_id(), 0);
    assert_eq!(schema.get_field("text").unwrap(), index.fields.0[0]);
    assert_eq!(index.default_search_fields().to_vec(), vec![index.fields.0[0]]);
    let entry = schema.get_field_entry(schema.get_field("__id__").unwrap());
    assert!(entry.is_indexed() && entry.is_fast());
}

#[test]
fn identifier_field_name_must_be_a_field_name() {
    let dir = tempfile::TempDir::new().unwrap();
    for name in ["", "-id", "-"] {
        match builder(&dir).with_id_field_name(name).finish::<Note>() {
            Err(StoreError::Config(text)) => assert_eq!(text, "`id_field_name` not valid"),
            _ => panic!("no configuration error"),
        }
    }
    assert!(!pallet::search::valid_field_name(""));
    assert!(!pallet::search::valid_field_name("-a"));
    assert!(pallet::search::valid_field_name("a-"));
    assert!(pallet::search::valid_field_name("__id__"));
    assert!(pallet::search::valid_field_name("\u{e9}t\u{e9}"));
}

#[test]
fn identifier_field_name_can_be_set() {
    let dir = tempfile::TempDir::new().unwrap();
    let index = builder(&dir).with_id_field_name("key").finish::<Note>().ok().unwrap();
    assert_eq!(index.id_field_name(), "key");
    assert!(index.inner().schema().get_field("key").is_ok());
    assert!(index.inner().schema().get_field("__id__").is_err());
}

#[test]
fn index_merge_prefers_what_is_set_first() {
    let mine = IndexBuilder::<FieldsContainer>::default().with_index_dir("mine");
    let other = IndexBuilder::<FieldsContainer>::default()
        .with_index_dir("other")
        .with_id_field_name("key")
        .with_writer_accessor(50_000_000)
        .with_config(IndexConfig::CallingThread);
    let merged = mine.merge(other);
    assert_eq!(merged.index_dir, Some("mine".to_string()));
    assert_eq!(merged.id_field_name, Some("key".to_string()));
    assert_eq!(merged.writer_accessor, Some(50_000_000));
    assert!(matches!(merged.config, Some(IndexConfig::CallingThread)));
    let kept = IndexBuilder::<FieldsContainer>::default()
        .with_config(IndexConfig::Threads(2))
        .with_writer_accessor(60_000_000)
        .merge(
            IndexBuilder::default().with_writer_accessor(1).with_config(IndexConfig::CallingThread),
        );
    assert_eq!(kept.writer_accessor, Some(60_000_000));
    assert!(matches!(kept.config, Some(IndexConfig::Threads(2))));
    assert!(kept.index_dir.is_none() && kept.id_field_name.is_none());
}

#[test]
fn configured_executors_search() {
    for config in [IndexConfig::Threads(2), IndexConfig::CallingThread] {
        let dir = tempfile::TempDir::new().unwrap();
        let mut index = builder(&dir)
            .with_config(config)
            .with_writer_accessor(30_000_000)
            .finish::<Note>()
            .ok()
            .unwrap();
        let note = doc(&index, "a quiet morning");
        assert!(index.add_document(note, 4).is_ok());
        assert!(index.commit().is_ok());
        assert_eq!(found(&index, "quiet"), (1, vec![4]));
    }
}

#[test]
fn additions_are_seen_after_commit_only() {
    let dir = tempfile::TempDir::new().unwrap();
    let mut index = open(&dir);
    let note = doc(&index, "a quiet morning");
    assert!(index.add_document(note, 11).is_ok());
    assert_eq!(found(&index, "quiet"), (0, vec![]));
    assert!(index.commit().is_ok());
    assert_eq!(found(&index, "quiet"), (1, vec![11]));
}

#[test]
fn deletion_takes_what_is_stamped_with_the_identifier() {
    let dir = tempfile::TempDir::new().unwrap();
    let mut index = open(&dir);
    for id in [1u64, 2, 3] {
        let note = doc(&index, "the same words");
        assert!(index.add_document(note, id).is_ok());
    }
    assert!(index.commit().is_ok());
    assert_eq!(found(&index, "words"), (3, vec![1, 2, 3]));
    assert!(index.delete_term(2).is_ok());
    assert_eq!(found(&index, "words").0, 3);
    assert!(index.commit().is_ok());
    assert_eq!(found(&index, "words"), (2, vec![1, 3]));
    assert!(index.delete_term(9).is_ok());
    let again = doc(&index, "other words");
    assert!(index.delete_term(1).is_ok());
    assert!(index.add_document(again, 1).is_ok());
    assert!(index.commit().is_ok());
    assert_eq!(found(&index, "same"), (1, vec![3]));
    assert_eq!(found(&index, "other"), (1, vec![1]));
}

#[test]
fn text_parser_requires_all_terms() {
    let dir = tempfile::TempDir::new().unwrap();
    let mut index = open(&dir);
    let first = doc(&index, "red apple");
    let second = doc(&index, "green apple");
    assert!(index.add_document(first, 1).is_ok());
    assert!(index.add_document(second, 2).is_ok());
    assert!(index.commit().is_ok());
    assert_eq!(found(&index, "red apple"), (1, vec![1]));
    assert_eq!(found(&index, "apple").0, 2);
    assert_eq!(found(&index, "red OR green").0, 2);
    let parser = index.query_parser();
    let parsed = QueryContainer { inner: parser.parse_query("green apple").unwrap() };
    assert_eq!(index.matches(&parsed).ok().unwrap().1[0].id, 2);
}

#[test]
fn malformed_text_as_query_is_a_query_error() {
    let dir = tempfile::TempDir::new().unwrap();
    let index = open(&dir);
    let r = "text:(".as_query(index.inner(), index.default_search_fields());
    assert!(matches!(r, Err(StoreError::Query(_))));
    let r = String::from("nothing:here").as_query(index.inner(), index.default_search_fields());
    assert!(matches!(r, Err(StoreError::Query(_))));
}

#[test]
fn built_query_is_used_as_it_is() {
    let dir = tempfile::TempDir::new().unwrap();
    let mut index = open(&dir);
    let note = doc(&index, "red apple");
    assert!(index.add_document(note, 1).is_ok());
    assert!(index.commit().is_ok());
    let built = query(&index, "apple");
    let again = built.as_query(index.inner(), &[]).ok().unwrap();
    assert_eq!(index.matches(&again).ok().unwrap().0, 1);
    let by_reference = (&built).as_query(index.inner(), &[]).ok().unwrap();
    assert_eq!(index.matches(&by_reference).ok().unwrap().0, 1);
}

#[test]
fn default_field_outside_the_schema_is_a_configuration_error() {
    let dir = tempfile::TempDir::new().unwrap();
    let index = open(&dir);
    let foreign = Field::from_field_id(99);
    let defaults = index.default_search_fields();
    assert!(pallet::search::as_query::fields_in_schema(index.inner(), defaults));
    assert!(pallet::search::as_query::fields_in_schema(index.inner(), &[]));
    assert!(!pallet::search::as_query::fields_in_schema(index.inner(), &[foreign]));
    let edge = Field::from_field_id(2);
    assert!(!pallet::search::as_query::fields_in_schema(index.inner(), &[index.fields.0[0], edge]));
    match "apple".as_query(index.inner(), &[index.fields.0[0], foreign]) {
        Err(StoreError::Config(text)) => assert_eq!(text, "`default_search_fields` not in schema"),
        _ => panic!("no configuration error"),
    }
    let r = String::from("text:apple").as_query(index.inner(), &[foreign]);
    assert!(matches!(r, Err(StoreError::Config(_))));
    let parsed = pallet::search::as_query::parse_text(index.inner(), &[index.fields.0[0]], "apple");
    assert!(parsed.is_ok());
}

#[test]
fn index_has_its_identifier_field() {
    let dir = tempfile::TempDir::new().unwrap();
    let mut index = open(&dir);
    assert!(index.check_id_field());
    assert!(index.delete_term(1).is_ok());
    assert!(index.commit().is_ok());
}

use notion_llm::store::{StoreModel, CreateOutcome, batches_of, store_url};
use notion_llm::registry::EmbeddingProvider;
use notion_llm::point::build;
use notion_llm::filter::{create_query_filter, FilterMode};
use notion_llm::retrieve::extract_document_text;
use notion_llm::errors::Error;

#[test]
fn create_with_default_model_dimension() {
    let provider = EmbeddingProvider::new(None);
    let mut store = StoreModel::new();
    let o = store.create_collection("recipes", provider.get_current_model_size());
    assert_eq!(o, CreateOutcome::Created);
    assert_eq!(store.list_available_collections(), vec!["recipes".to_string()]);
    assert_eq!(store.collection_dimension("recipes"), Some(768));
}

#[test]
fn create_twice_is_a_warned_no_op() {
    let mut store = StoreModel::new();
    assert_eq!(store.create_collection("recipes", 768), CreateOutcome::Created);
    let names_before = store.list_available_collections();
    assert_eq!(store.create_collection("recipes", 768), CreateOutcome::AlreadyExists);
    assert_eq!(store.list_available_collections(), names_before);
    assert_eq!(store.list_available_collections().len(), 1);
}

#[test]
fn reingesting_a_key_replaces_the_point() {
    let mut store = StoreModel::new();
    store.create_collection("recipes", 768);
    let meta: Vec<(String, String)> = Vec::new();
    let p1 = build("lemon-cake", "first version", &meta);
    let p2 = build("lemon-cake", "second version", &meta);
    store.add_points("recipes", vec![p1]).unwrap();
    store.add_points("recipes", vec![p2]).unwrap();
    assert_eq!(store.collections[0].points.len(), 1);
    assert_eq!(
        store.collections[0].points[0]
            .payload
            .get("document_for_embeddings")
            .map(|s| s.as_str()),
        Some("second version")
    );
}

#[test]
fn add_points_to_absent_collection_is_not_found() {
    let mut store = StoreModel::new();
    let meta: Vec<(String, String)> = Vec::new();
    let p = build("k", "t", &meta);
    assert_eq!(store.add_points("nowhere", vec![p]), Err(Error::NotFound));
}

#[test]
fn delete_collection_reports_and_removes() {
    let mut store = StoreModel::new();
    store.create_collection("a", 384);
    store.create_collection("b", 768);
    assert!(store.delete_collection("a"));
    assert_eq!(store.list_available_collections(), vec!["b".to_string()]);
    assert!(!store.delete_collection("a"));
}

#[test]
fn ingest_then_query_returns_exact_text() {
    let mut store = StoreModel::new();
    store.create_collection("recipes", 768);
    let meta = vec![("dish_name".to_string(), "lemon-cake".to_string())];
    let text = "Preheat oven to 350F and cream the butter and sugar.";
    let p = build("lemon-cake", text, &meta);
    store.add_points("recipes", vec![p]).unwrap();
    let hits = store.search_collection("recipes", &None, 1).unwrap();
    assert_eq!(hits, vec![0usize]);
    let payload = &store.collections[0].points[hits[0]].payload;
    assert_eq!(extract_document_text(payload).as_deref(), Some(text));
}

#[test]
fn any_filter_returns_only_matching_points() {
    let mut store = StoreModel::new();
    store.create_collection("sweets", 768);
    let mk = |key: &str, category: &str| {
        build(
            key,
            &format!("text of {key}"),
            &vec![("category".to_string(), category.to_string())],
        )
    };
    store
        .add_points(
            "sweets",
            vec![
                mk("tart", "dessert"),
                mk("stew", "main"),
                mk("cake", "dessert"),
                mk("soup", "main"),
                mk("bread", "side"),
            ],
        )
        .unwrap();
    let conditions = vec![("category".to_string(), "dessert".to_string())];
    let filter = create_query_filter("any", &conditions);
    assert!(filter.is_some());
    let hits = store.search_collection("sweets", &filter, 5).unwrap();
    assert_eq!(hits, vec![0usize, 2]);
    assert!(hits.len() <= 5);
    for h in hits {
        let payload = &store.collections[0].points[h].payload;
        assert_eq!(payload.get("category").map(|s| s.as_str()), Some("dessert"));
    }
}

#[test]
fn search_limit_cuts_off_hits() {
    let mut store = StoreModel::new();
    store.create_collection("c", 768);
    let meta: Vec<(String, String)> = Vec::new();
    store
        .add_points(
            "c",
            vec![build("a", "1", &meta), build("b", "2", &meta), build("d", "3", &meta)],
        )
        .unwrap();
    let hits = store.search_collection("c", &None, 2).unwrap();
    assert_eq!(hits, vec![0usize, 1]);
}

#[test]
fn search_absent_collection_is_not_found() {
    let store = StoreModel::new();
    assert_eq!(store.search_collection("nope", &None, 5), Err(Error::NotFound));
}

#[test]
fn batches_of_chunks_in_order() {
    let meta: Vec<(String, String)> = Vec::new();
    let keys = ["a", "b", "c", "d", "e", "f", "g"];
    let points: Vec<_> = keys.iter().map(|k| build(k, "t", &meta)).collect();
    let ids: Vec<String> = points.iter().map(|p| p.id.clone()).collect();
    let batches = batches_of(points, 3);
    assert_eq!(batches.len(), 3);
    assert_eq!(batches[0].len(), 3);
    assert_eq!(batches[1].len(), 3);
    assert_eq!(batches[2].len(), 1);
    let flat: Vec<String> = batches.iter().flatten().map(|p| p.id.clone()).collect();
    assert_eq!(flat, ids);
}

#[test]
fn store_url_default_and_explicit() {
    assert_eq!(store_url(None), "http://localhost:6334");
    assert_eq!(store_url(Some("http://qdrant.internal:6334")), "http://qdrant.internal:6334");
}

#[test]
fn filter_mode_values_are_distinct() {
    assert_ne!(FilterMode::All, FilterMode::Any);
}

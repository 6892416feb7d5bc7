use notion_llm::point::{build, build_batch, check_dimensions, create_ids};
use notion_llm::errors::Error;

#[test]
fn build_same_key_twice_identical_id() {
    let meta: Vec<(String, String)> = Vec::new();
    let p1 = build("lemon-cake", "first text", &meta);
    let p2 = build("lemon-cake", "completely different text", &meta);
    assert_eq!(p1.id, p2.id);
}

#[test]
fn build_distinct_keys_distinct_ids() {
    let meta: Vec<(String, String)> = Vec::new();
    let p1 = build("lemon-cake", "t", &meta);
    let p2 = build("carrot-cake", "t", &meta);
    assert_ne!(p1.id, p2.id);
}

#[test]
fn build_id_agrees_with_name_based_uuid() {
    let meta: Vec<(String, String)> = Vec::new();
    let p = build("lemon-cake", "t", &meta);
    let expected = uuid::Uuid::new_v5(&uuid::Uuid::NAMESPACE_DNS, "lemon-cake".as_bytes())
        .to_string();
    assert_eq!(p.id, expected);
    assert_eq!(p.id.chars().count(), 36);
}

#[test]
fn build_payload_holds_text_and_metadata() {
    let meta = vec![("dish_name".to_string(), "lemon cake".to_string())];
    let p = build("lemon-cake", "Preheat oven to 350F.", &meta);
    assert_eq!(
        p.payload.get("document_for_embeddings").map(|s| s.as_str()),
        Some("Preheat oven to 350F.")
    );
    assert_eq!(p.payload.get("dish_name").map(|s| s.as_str()), Some("lemon cake"));
    assert_eq!(p.payload.get("absent"), None);
}

#[test]
fn build_reserved_key_in_metadata_is_overwritten() {
    let meta = vec![("document_for_embeddings".to_string(), "stale".to_string())];
    let p = build("k", "fresh", &meta);
    assert_eq!(p.payload.get("document_for_embeddings").map(|s| s.as_str()), Some("fresh"));
}

#[test]
fn build_batch_length_mismatch_is_rejected() {
    let keys = vec!["a".to_string(), "b".to_string()];
    let texts = vec!["t1".to_string(), "t2".to_string()];
    let metadata = vec![Vec::<(String, String)>::new()];
    let r = build_batch(&keys, &texts, &metadata);
    assert_eq!(r.err(), Some(Error::InputLengthMismatch));
}

#[test]
fn build_batch_documents_three_ids_two_is_rejected() {
    let keys = vec!["a".to_string(), "b".to_string(), "c".to_string()];
    let texts = vec!["t1".to_string(), "t2".to_string()];
    let metadata = vec![
        Vec::<(String, String)>::new(),
        Vec::<(String, String)>::new(),
        Vec::<(String, String)>::new(),
    ];
    let r = build_batch(&keys, &texts, &metadata);
    assert_eq!(r.err(), Some(Error::InputLengthMismatch));
}

#[test]
fn build_batch_matching_lengths_builds_points() {
    let keys = vec!["a".to_string(), "b".to_string()];
    let texts = vec!["t1".to_string(), "t2".to_string()];
    let metadata = vec![Vec::<(String, String)>::new(), Vec::<(String, String)>::new()];
    let points = build_batch(&keys, &texts, &metadata).unwrap();
    assert_eq!(points.len(), 2);
    let ids = create_ids(&keys);
    assert_eq!(points[0].id, ids[0]);
    assert_eq!(points[1].id, ids[1]);
    assert_eq!(
        points[1].payload.get("document_for_embeddings").map(|s| s.as_str()),
        Some("t2")
    );
}

#[test]
fn create_ids_are_name_based_uuids() {
    let keys = vec!["alpha".to_string(), "beta".to_string()];
    let ids = create_ids(&keys);
    assert_eq!(ids.len(), 2);
    for (k, id) in keys.iter().zip(ids.iter()) {
        let expected = uuid::Uuid::new_v5(&uuid::Uuid::NAMESPACE_DNS, k.as_bytes()).to_string();
        assert_eq!(id, &expected);
    }
}

#[test]
fn check_dimensions_accepts_uniform_lengths() {
    let lengths = vec![768usize, 768, 768];
    assert!(check_dimensions(&lengths, 768).is_ok());
}

#[test]
fn check_dimensions_rejects_a_deviating_length() {
    let lengths = vec![768usize, 384, 768];
    assert_eq!(check_dimensions(&lengths, 768).err(), Some(Error::DimensionMismatch));
}

#[test]
fn error_descriptions_are_distinct() {
    let all = [
        Error::ConnectionFailure,
        Error::EmbeddingFailure,
        Error::InputLengthMismatch,
        Error::DimensionMismatch,
        Error::ParseFailure,
        Error::NotFound,
    ];
    for (i, a) in all.iter().enumerate() {
        for (j, b) in all.iter().enumerate() {
            assert_eq!(i == j, a.describe() == b.describe());
        }
    }
}

use notion_llm::filter::{
    create_condition, create_query_filter, condition_matches, matches_payload,
    matching_payload_indices, parse_filter_mode, Filter, FilterMode,
};
use notion_llm::payload::Payload;
use notion_llm::registry::{registry, EmbeddingProvider};
use notion_llm::retrieve::{plan_query_filter, trim_quotes};
use notion_llm::blocks::{child_pages, page_content, str_replacer, Block};
use notion_llm::str_eq;

fn payload_of(pairs: &[(&str, &str)]) -> Payload {
    let mut p = Payload::new();
    for (k, v) in pairs {
        p.insert(k, v.to_string());
    }
    p
}

#[test]
fn all_mode_requires_every_condition() {
    let conditions = vec![("a".to_string(), "1".to_string()), ("b".to_string(), "2".to_string())];
    let f = create_query_filter("all", &conditions).unwrap();
    assert_eq!(f.mode, FilterMode::All);
    assert!(matches_payload(&f, &payload_of(&[("a", "1"), ("b", "2")])));
    assert!(matches_payload(&f, &payload_of(&[("a", "1"), ("b", "2"), ("c", "3")])));
    assert!(!matches_payload(&f, &payload_of(&[("a", "1")])));
    assert!(!matches_payload(&f, &payload_of(&[("a", "1"), ("b", "9")])));
    assert!(!matches_payload(&f, &payload_of(&[])));
}

#[test]
fn any_mode_requires_at_least_one_condition() {
    let conditions = vec![("a".to_string(), "1".to_string()), ("b".to_string(), "2".to_string())];
    let f = create_query_filter("any", &conditions).unwrap();
    assert_eq!(f.mode, FilterMode::Any);
    assert!(matches_payload(&f, &payload_of(&[("a", "1")])));
    assert!(matches_payload(&f, &payload_of(&[("b", "2"), ("x", "y")])));
    assert!(!matches_payload(&f, &payload_of(&[("a", "9"), ("b", "9")])));
    assert!(!matches_payload(&f, &payload_of(&[])));
}

#[test]
fn unrecognized_mode_builds_no_filter() {
    let conditions = vec![("a".to_string(), "1".to_string())];
    assert!(create_query_filter("some", &conditions).is_none());
    assert_eq!(parse_filter_mode("all"), Some(FilterMode::All));
    assert_eq!(parse_filter_mode("any"), Some(FilterMode::Any));
    assert_eq!(parse_filter_mode("each"), None);
}

#[test]
fn condition_matches_exact_value_only() {
    let c = create_condition("category", "dessert");
    assert!(condition_matches(&payload_of(&[("category", "dessert")]), &c));
    assert!(!condition_matches(&payload_of(&[("category", "desserts")]), &c));
    assert!(!condition_matches(&payload_of(&[("kind", "dessert")]), &c));
}

#[test]
fn matching_indices_keep_order_and_no_filter_keeps_all() {
    let payloads = vec![
        payload_of(&[("k", "x")]),
        payload_of(&[("k", "y")]),
        payload_of(&[("k", "x")]),
    ];
    let f = Filter {
        mode: FilterMode::All,
        conditions: vec![create_condition("k", "x")],
    };
    assert_eq!(matching_payload_indices(&payloads, &Some(f)), vec![0usize, 2]);
    assert_eq!(matching_payload_indices(&payloads, &None), vec![0usize, 1, 2]);
}

#[test]
fn payload_insert_replaces_and_keeps_others() {
    let mut p = payload_of(&[("a", "1"), ("b", "2")]);
    p.insert("a", "9".to_string());
    assert_eq!(p.get("a").map(|s| s.as_str()), Some("9"));
    assert_eq!(p.get("b").map(|s| s.as_str()), Some("2"));
    assert_eq!(p.len(), 2);
}

#[test]
fn payload_from_pairs_last_binding_wins() {
    let pairs = vec![("a".to_string(), "1".to_string()), ("a".to_string(), "2".to_string())];
    let p = Payload::from_pairs(&pairs);
    assert_eq!(p.get("a").map(|s| s.as_str()), Some("2"));
    assert_eq!(p.len(), 1);
}

#[test]
fn registry_has_seven_models_with_fixed_dimensions() {
    let models = registry();
    let expected = [
        ("AllMiniLML6V2", 384u64),
        ("BGEBaseEN", 768),
        ("BGEBaseENV15", 768),
        ("BGESmallEN", 384),
        ("BGESmallENV15", 384),
        ("BGESmallZH", 512),
        ("MLE5Large", 1024),
    ];
    assert_eq!(models.len(), expected.len());
    for (m, (name, dim)) in models.iter().zip(expected.iter()) {
        assert_eq!(m.name.as_str(), *name);
        assert_eq!(m.dimension, *dim);
        assert!(!m.description.is_empty());
    }
}

#[test]
fn select_known_model_keeps_it() {
    let p = EmbeddingProvider::new(Some("BGESmallZH"));
    assert_eq!(p.current_model_name.as_str(), "BGESmallZH");
    assert_eq!(p.get_current_model_size(), 512);
}

#[test]
fn select_unknown_or_absent_falls_back_to_default() {
    let p = EmbeddingProvider::new(Some("NoSuchModel"));
    assert_eq!(p.current_model_name.as_str(), "BGEBaseEN");
    assert_eq!(p.get_current_model_size(), 768);
    let q = EmbeddingProvider::new(None);
    assert_eq!(q.current_model_name.as_str(), "BGEBaseEN");
    assert_eq!(q.get_current_model_size(), 768);
}

#[test]
fn trim_quotes_strips_surrounding_quotes_only() {
    assert_eq!(trim_quotes("\"hello\""), "hello");
    assert_eq!(trim_quotes("\"\"wrapped twice\"\""), "wrapped twice");
    assert_eq!(trim_quotes("no quotes"), "no quotes");
    assert_eq!(trim_quotes("inner \" quote"), "inner \" quote");
    assert_eq!(trim_quotes("\"\"\""), "");
    assert_eq!(trim_quotes(""), "");
    assert_eq!(trim_quotes("\"left"), "left");
    assert_eq!(trim_quotes("right\""), "right");
}

#[test]
fn str_replacer_maps_heading_and_list_markers() {
    assert_eq!(str_replacer("heading_1"), "#");
    assert_eq!(str_replacer("heading_2"), "##");
    assert_eq!(str_replacer("bulleted_list_item"), "-");
    assert_eq!(str_replacer("paragraph"), "paragraph");
}

fn block(block_type: &str, has_children: bool, title: &str, id: &str, plain_text: &str) -> Block {
    Block {
        block_type: block_type.to_string(),
        has_children,
        title: title.to_string(),
        id: id.to_string(),
        plain_text: plain_text.to_string(),
    }
}

#[test]
fn child_pages_selects_blocks_with_children() {
    let blocks = vec![
        block("child_page", true, "Lemon cake", "id-1", ""),
        block("paragraph", false, "", "id-2", "Some text"),
        block("child_page", true, "Carrot soup", "id-3", ""),
    ];
    let pages = child_pages(&blocks);
    assert_eq!(
        pages,
        vec![
            ("Lemon cake".to_string(), "id-1".to_string()),
            ("Carrot soup".to_string(), "id-3".to_string()),
        ]
    );
}

#[test]
fn page_content_flattens_blocks_to_markdown_like_text() {
    let blocks = vec![
        block("heading_1", false, "", "i1", "Recipe"),
        block("paragraph", false, "", "i2", "Cream the butter."),
        block("bulleted_list_item", false, "", "i3", "sugar"),
    ];
    assert_eq!(page_content(&blocks), "#Recipe\nparagraphCream the butter.\n-sugar\n");
}

#[test]
fn str_eq_compares_contents() {
    assert!(str_eq("abc", "abc"));
    assert!(!str_eq("abc", "abd"));
    assert!(!str_eq("abc", "ab"));
    assert!(str_eq("", ""));
}

#[test]
fn plan_query_filter_follows_conditions_and_mode() {
    let conditions = vec![("category".to_string(), "dessert".to_string())];
    assert!(plan_query_filter(None, "all").is_none());
    let f = plan_query_filter(Some(&conditions), "any").unwrap();
    assert_eq!(f.mode, FilterMode::Any);
    assert_eq!(f.conditions.len(), 1);
    assert!(plan_query_filter(Some(&conditions), "every").is_none());
}

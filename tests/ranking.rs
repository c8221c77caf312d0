use pictocache::model::PictogramDto;
use pictocache::ranking::{fuzzy_score, haystack_text, item_fuzzy_score, rank_by_fuzzy_score, sort_by_fuzzy_score};

fn record(id: i32, keywords: &[&str]) -> PictogramDto {
    PictogramDto {
        arasaac_id: id,
        keywords: keywords.iter().map(|s| s.to_string()).collect(),
        category: None,
        categories: vec![],
        tags: vec![],
        language: "en".to_string(),
        image_url: None,
        local_file_path: None,
        width: None,
        height: None,
        license: "CC".to_string(),
        description: None,
    }
}

#[test]
fn ranking_orders_exact_then_prefix_then_substring() {
    let items = vec![record(1, &["apple pie"]), record(2, &["apple"]), record(3, &["green apple tree"])];
    assert_eq!(item_fuzzy_score(&items[0], "apple"), 700);
    assert_eq!(item_fuzzy_score(&items[1], "apple"), 1000);
    assert_eq!(item_fuzzy_score(&items[2], "apple"), 400);
    let ranked = rank_by_fuzzy_score(items, "apple");
    let ids: Vec<i32> = ranked.iter().map(|p| p.arasaac_id).collect();
    assert_eq!(ids, vec![2, 1, 3]);
}

#[test]
fn ranking_is_stable_for_equal_scores() {
    let mut items = vec![
        record(1, &["red"]),
        record(2, &["blue ball"]),
        record(3, &["green"]),
        record(4, &["ball game"]),
        record(5, &["yellow"]),
    ];
    sort_by_fuzzy_score(&mut items, "ball");
    let ids: Vec<i32> = items.iter().map(|p| p.arasaac_id).collect();
    assert_eq!(ids, vec![4, 2, 1, 3, 5]);
}

#[test]
fn ranking_empty_list_stays_empty() {
    assert!(rank_by_fuzzy_score(vec![], "x").is_empty());
}

#[test]
fn fuzzy_score_ignores_ascii_case() {
    assert_eq!(fuzzy_score("Apple", "APPLE"), 1000);
    assert_eq!(fuzzy_score("APP", "apple"), 700);
    assert_eq!(fuzzy_score("PLE", "apple"), 400);
}

#[test]
fn fuzzy_score_counts_query_words() {
    assert_eq!(fuzzy_score("red ball", "a ball that is red"), 160);
    assert_eq!(fuzzy_score("red  big ball", "a ball"), 80);
    assert_eq!(fuzzy_score("xyz", "abc"), 0);
}

#[test]
fn haystack_joins_all_parts_with_blanks() {
    let mut p = record(9, &["dog", "puppy"]);
    p.categories = vec!["animal".to_string()];
    p.tags = vec!["pet".to_string()];
    p.description = Some("a young dog".to_string());
    assert_eq!(haystack_text(&p), "dog puppy animal pet a young dog");
    assert_eq!(haystack_text(&record(1, &[])), "");
}

#[test]
fn long_queries_are_scored() {
    let q = "a ".repeat(1000);
    assert_eq!(fuzzy_score(&q, "b"), 0);
    assert_eq!(fuzzy_score("x y z", "x z"), 160);
}

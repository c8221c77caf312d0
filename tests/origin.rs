use pictocache::error::AppError;
use pictocache::model::{RemoteKeyword, RemotePictogram, DEFAULT_LICENSE};
use pictocache::origin::{
    build_remote_png_url, build_remote_svg_url, classify_status, extract_keyword_tokens,
    keywords_url, needs_broad_search, newest_url, origin_items, pick_by_id, pictogram_url,
    remote_to_dto, search_url, OriginStatus,
};

fn kw(k: Option<&str>, p: Option<&str>, m: Option<&str>) -> RemoteKeyword {
    RemoteKeyword {
        keyword: k.map(|s| s.to_string()),
        plural: p.map(|s| s.to_string()),
        meaning: m.map(|s| s.to_string()),
    }
}

fn remote(id: i32) -> RemotePictogram {
    RemotePictogram {
        id,
        keywords: vec![kw(Some(" ball "), Some("balls"), None)],
        categories: vec!["toys".to_string(), "sport".to_string()],
        tags: vec!["play".to_string()],
        desc: Some("a round toy".to_string()),
    }
}

#[test]
fn statuses_are_classified() {
    assert_eq!(classify_status(200), OriginStatus::Success);
    assert_eq!(classify_status(204), OriginStatus::Success);
    assert_eq!(classify_status(404), OriginStatus::NoMatches);
    assert_eq!(classify_status(429), OriginStatus::RateLimited);
    assert_eq!(classify_status(500), OriginStatus::Failed);
    assert_eq!(classify_status(301), OriginStatus::Failed);
}

#[test]
fn not_found_status_is_an_empty_list() {
    assert_eq!(origin_items::<i32>(404, None), Ok(vec![]));
}

#[test]
fn throttling_is_rate_limited() {
    assert_eq!(origin_items::<i32>(429, Some(vec![1])), Err(AppError::RateLimited));
}

#[test]
fn other_failures_are_internal() {
    assert!(matches!(origin_items::<i32>(503, Some(vec![1])), Err(AppError::Internal(_))));
    assert!(matches!(origin_items::<i32>(200, None), Err(AppError::Internal(_))));
    assert_eq!(origin_items::<i32>(200, Some(vec![1, 2])), Ok(vec![1, 2]));
}

#[test]
fn fetch_by_id_takes_last_record() {
    assert_eq!(pick_by_id(vec![]), Err(AppError::NotFound));
    assert_eq!(pick_by_id(vec![remote(1), remote(2)]).unwrap().id, 2);
}

#[test]
fn broad_search_only_after_empty_best_match() {
    assert!(needs_broad_search(&vec![]));
    assert!(!needs_broad_search(&vec![remote(1)]));
}

#[test]
fn search_urls_encode_the_query() {
    assert_eq!(
        search_url("en", "hot dog", true),
        "https://api.arasaac.org/v1/pictograms/en/bestsearch/hot%20dog"
    );
    assert_eq!(search_url("es", "niño", false), "https://api.arasaac.org/v1/pictograms/es/search/ni%C3%B1o");
}

#[test]
fn id_and_list_urls() {
    assert_eq!(pictogram_url("es", 2340), "https://api.arasaac.org/v1/pictograms/es/2340");
    assert_eq!(newest_url("en", 30), "https://api.arasaac.org/v1/pictograms/en/new/30");
    assert_eq!(keywords_url("fr"), "https://api.arasaac.org/v1/keywords/fr");
}

#[test]
fn asset_urls() {
    assert_eq!(build_remote_png_url(5), "https://static.arasaac.org/pictograms/5/5_500.png");
    assert_eq!(build_remote_svg_url(12345), "https://static.arasaac.org/pictograms/12345/12345.svg");
    assert_eq!(build_remote_png_url(-3), "https://static.arasaac.org/pictograms/-3/-3_500.png");
}

#[test]
fn keyword_tokens_are_sorted_without_repeats() {
    let mut p = remote(1);
    p.keywords = vec![
        kw(Some("zebra"), None, Some("  ")),
        kw(None, Some(" apples "), Some("fruit")),
        kw(Some("apples"), Some("Zebra"), None),
    ];
    assert_eq!(extract_keyword_tokens(&p), vec!["Zebra", "apples", "fruit", "zebra"]);
}

#[test]
fn origin_record_maps_directly() {
    let d = remote_to_dto("en", &remote(77));
    assert_eq!(d.arasaac_id, 77);
    assert_eq!(d.keywords, vec!["ball", "balls"]);
    assert_eq!(d.category.as_deref(), Some("toys"));
    assert_eq!(d.categories, vec!["toys", "sport"]);
    assert_eq!(d.tags, vec!["play"]);
    assert_eq!(d.language, "en");
    assert_eq!(d.image_url.as_deref(), Some("https://static.arasaac.org/pictograms/77/77_500.png"));
    assert_eq!(d.local_file_path, None);
    assert_eq!(d.width, None);
    assert_eq!(d.license, DEFAULT_LICENSE);
    assert_eq!(d.description.as_deref(), Some("a round toy"));
}

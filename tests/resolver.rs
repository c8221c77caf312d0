use std::collections::HashMap;

use pictocache::error::AppError;
use pictocache::model::{PictogramDto, RemoteKeyword, RemotePictogram};
use pictocache::resolver::{
    check_pictogram_id, clamp_newest_count, fetched_pictogram, finish_newest, finish_resolve,
    finish_search, keeps_existing_asset, keyword_list, map_hits, prepare_search, resolve_step,
    search_from_local, ResolveStep,
};

fn record(id: i32, keyword: &str, path: Option<&str>) -> PictogramDto {
    PictogramDto {
        arasaac_id: id,
        keywords: vec![keyword.to_string()],
        category: None,
        categories: vec![],
        tags: vec![],
        language: "en".to_string(),
        image_url: None,
        local_file_path: path.map(|p| p.to_string()),
        width: None,
        height: None,
        license: "CC".to_string(),
        description: None,
    }
}

fn remote(id: i32, keyword: &str) -> RemotePictogram {
    RemotePictogram {
        id,
        keywords: vec![RemoteKeyword { keyword: Some(keyword.to_string()), plural: None, meaning: None }],
        categories: vec![],
        tags: vec![],
        desc: None,
    }
}

#[test]
fn search_request_is_normalized() {
    let (l, q) = prepare_search("E", "  ball ").unwrap();
    assert_eq!(l, "en");
    assert_eq!(q, "ball");
}

#[test]
fn empty_query_is_bad_request() {
    assert!(matches!(prepare_search("en", "   "), Err(AppError::BadRequest(_))));
    assert!(matches!(prepare_search("en", ""), Err(AppError::BadRequest(_))));
}

#[test]
fn local_hits_are_ranked() {
    let local = vec![record(1, "blue ball", None), record(2, "ball", None)];
    let r = search_from_local(local, "ball").unwrap();
    assert_eq!(r.iter().map(|p| p.arasaac_id).collect::<Vec<_>>(), vec![2, 1]);
    assert!(search_from_local(vec![], "ball").is_none());
}

#[test]
fn origin_miss_is_an_empty_answer() {
    assert!(finish_search("en", "ball", &vec![], None).is_empty());
}

#[test]
fn unavailable_store_serves_origin_hits_directly() {
    let hits = vec![remote(10, "beach ball"), remote(11, "ball")];
    let r = finish_search("en", "ball", &hits, None);
    assert_eq!(r.len(), 2);
    assert_eq!(r[0].arasaac_id, 11);
    assert_eq!(r[1].arasaac_id, 10);
    assert_eq!(r[0].image_url.as_deref(), Some("https://static.arasaac.org/pictograms/11/11_500.png"));
    assert_eq!(r[0].local_file_path, None);
}

#[test]
fn empty_reread_falls_back_to_origin_hits() {
    let hits = vec![remote(10, "ball")];
    let r = finish_search("en", "ball", &hits, Some(vec![]));
    assert_eq!(r.len(), 1);
    assert_eq!(r[0].arasaac_id, 10);
}

#[test]
fn reread_records_are_preferred() {
    let hits = vec![remote(10, "ball")];
    let reread = vec![record(10, "ball", Some("/assets/pictograms/toys/10.svg"))];
    let r = finish_search("en", "ball", &hits, Some(reread));
    assert_eq!(r[0].local_file_path.as_deref(), Some("/assets/pictograms/toys/10.svg"));
}

#[test]
fn non_positive_id_is_bad_request() {
    assert!(matches!(check_pictogram_id(0), Err(AppError::BadRequest(_))));
    assert!(matches!(check_pictogram_id(-4), Err(AppError::BadRequest(_))));
    assert_eq!(check_pictogram_id(1), Ok(()));
    assert!(matches!(resolve_step(0, None, false), Err(AppError::BadRequest(_))));
}

#[test]
fn materialized_record_is_served_twice_without_origin() {
    let rec = record(42, "lunch", Some("/assets/pictograms/food/42.svg"));
    let first = resolve_step(42, Some(rec.clone()), true).unwrap();
    let second = resolve_step(42, Some(rec.clone()), true).unwrap();
    assert_eq!(first, ResolveStep::Done(rec.clone()));
    assert_eq!(first, second);
}

#[test]
fn missing_file_or_record_goes_to_origin() {
    let rec = record(42, "lunch", Some("/assets/pictograms/food/42.svg"));
    assert_eq!(resolve_step(42, Some(rec), false).unwrap(), ResolveStep::FetchOrigin);
    assert_eq!(resolve_step(42, Some(record(42, "x", None)), true).unwrap(), ResolveStep::FetchOrigin);
    assert_eq!(resolve_step(42, None, true).unwrap(), ResolveStep::FetchOrigin);
}

#[test]
fn rate_limit_on_fetch_by_id_is_surfaced() {
    assert_eq!(fetched_pictogram(429, None), Err(AppError::RateLimited));
    assert_eq!(fetched_pictogram(429, Some(vec![remote(1, "a")])), Err(AppError::RateLimited));
}

#[test]
fn fetch_by_id_outcomes() {
    assert_eq!(fetched_pictogram(404, None), Err(AppError::NotFound));
    assert_eq!(fetched_pictogram(200, Some(vec![])), Err(AppError::NotFound));
    assert!(matches!(fetched_pictogram(500, None), Err(AppError::Internal(_))));
    assert!(matches!(fetched_pictogram(200, None), Err(AppError::Internal(_))));
    assert_eq!(fetched_pictogram(200, Some(vec![remote(5, "a")])).unwrap().id, 5);
}

#[test]
fn existing_asset_is_kept_only_when_on_disk() {
    let p = Some("/assets/pictograms/a/1.png".to_string());
    assert!(keeps_existing_asset(&p, true));
    assert!(!keeps_existing_asset(&p, false));
    assert!(!keeps_existing_asset(&None, true));
}

#[test]
fn failed_upsert_degrades_to_origin_record() {
    let r = finish_resolve("en", &remote(8, "cat"), None);
    assert_eq!(r.arasaac_id, 8);
    assert_eq!(r.keywords, vec!["cat"]);
    let stored = record(8, "cat", Some("/assets/pictograms/a/8.png"));
    assert_eq!(finish_resolve("en", &remote(8, "cat"), Some(stored.clone())), stored);
}

#[test]
fn newest_count_is_clamped() {
    assert_eq!(clamp_newest_count(0), 1);
    assert_eq!(clamp_newest_count(30), 30);
    assert_eq!(clamp_newest_count(500), 100);
}

#[test]
fn newest_answers() {
    let hits = vec![remote(3, "a"), remote(1, "b")];
    assert!(finish_newest("en", &vec![], None).is_empty());
    let direct = finish_newest("en", &hits, None);
    assert_eq!(direct.iter().map(|p| p.arasaac_id).collect::<Vec<_>>(), vec![3, 1]);
    let stored = vec![record(3, "a", None)];
    assert_eq!(finish_newest("en", &hits, Some(stored.clone())), stored);
    assert_eq!(map_hits("es", &hits)[1].language, "es");
}

#[test]
fn keyword_list_outcomes() {
    assert_eq!(keyword_list(404, None), Ok(vec![]));
    assert_eq!(keyword_list(429, None), Err(AppError::RateLimited));
    assert!(matches!(keyword_list(502, None), Err(AppError::Internal(_))));
    assert_eq!(keyword_list(200, Some(vec!["a".to_string()])), Ok(vec!["a".to_string()]));
}

#[test]
fn concurrent_upserts_leave_one_record() {
    let origin = remote(42, "lunch");
    let first = pictocache::origin::origin_record("en", &origin, None, Some("/assets/pictograms/food/42.svg".to_string()));
    let second = pictocache::origin::origin_record("en", &origin, None, Some("/assets/pictograms/food/42.png".to_string()));
    let mut store: HashMap<i32, PictogramDto> = HashMap::new();
    store.insert(first.arasaac_id, first);
    store.insert(second.arasaac_id, second.clone());
    assert_eq!(store.len(), 1);
    assert_eq!(store[&42], second);
    assert_eq!(store[&42].local_file_path.as_deref(), Some("/assets/pictograms/food/42.png"));
}

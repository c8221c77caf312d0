use pictocache::assets::{
    next_download, AssetFormat, accepts_vector, disk_path_from_public_path, materialized_reference, plan_materialization,
    seed_target,
};

#[test]
fn public_paths_map_to_disk() {
    assert_eq!(
        disk_path_from_public_path("/assets/pictograms/food/5.svg").as_deref(),
        Some("backend/assets_seed/pictograms/food/5.svg")
    );
    assert_eq!(disk_path_from_public_path("/other/5.svg"), None);
    assert_eq!(disk_path_from_public_path("/assets/pictograms"), None);
}

#[test]
fn plan_uses_category_slug() {
    let p = plan_materialization(5, &Some("Food & Drink".to_string()));
    assert_eq!(p.category_slug, "food---drink");
    assert_eq!(p.directory, "backend/assets_seed/pictograms/food---drink");
    assert_eq!(p.vector_url, "https://static.arasaac.org/pictograms/5/5.svg");
    assert_eq!(p.raster_url, "https://static.arasaac.org/pictograms/5/5_500.png");
    assert_eq!(p.vector_public, "/assets/pictograms/food---drink/5.svg");
    assert_eq!(p.raster_public, "/assets/pictograms/food---drink/5.png");
    assert_eq!(p.vector_disk, "backend/assets_seed/pictograms/food---drink/5.svg");
    assert_eq!(p.raster_disk, "backend/assets_seed/pictograms/food---drink/5.png");
}

#[test]
fn plan_without_category_is_uncategorized() {
    let p = plan_materialization(7, &None);
    assert_eq!(p.raster_public, "/assets/pictograms/uncategorized/7.png");
}

#[test]
fn vector_content_types() {
    assert!(accepts_vector("image/svg+xml"));
    assert!(accepts_vector("TEXT/XML; charset=utf-8"));
    assert!(!accepts_vector("image/png"));
    assert!(!accepts_vector(""));
}

#[test]
fn materialization_prefers_vector() {
    let p = plan_materialization(5, &Some("toys".to_string()));
    let (u, l) = materialized_reference(&p, true, true);
    assert_eq!(u.as_deref(), Some("https://static.arasaac.org/pictograms/5/5.svg"));
    assert_eq!(l.as_deref(), Some("/assets/pictograms/toys/5.svg"));
    let (u, l) = materialized_reference(&p, false, true);
    assert_eq!(u.as_deref(), Some("https://static.arasaac.org/pictograms/5/5_500.png"));
    assert_eq!(l.as_deref(), Some("/assets/pictograms/toys/5.png"));
}

#[test]
fn failed_raster_keeps_metadata_only() {
    let p = plan_materialization(5, &None);
    let (u, l) = materialized_reference(&p, false, false);
    assert_eq!(u.as_deref(), Some("https://static.arasaac.org/pictograms/5/5_500.png"));
    assert_eq!(l, None);
}

#[test]
fn seeded_targets() {
    assert_eq!(
        seed_target("/assets/pictograms/a/1.SVG"),
        Some(("backend/assets_seed/pictograms/a/1.SVG".to_string(), true))
    );
    assert_eq!(
        seed_target("/assets/pictograms/a/1.png"),
        Some(("backend/assets_seed/pictograms/a/1.png".to_string(), false))
    );
    assert_eq!(seed_target("/uploads/1.png"), None);
}

#[test]
fn vector_first_then_raster() {
    assert_eq!(next_download(false, false, false), Some(AssetFormat::Vector));
    assert_eq!(next_download(true, false, false), Some(AssetFormat::Raster));
    assert_eq!(next_download(true, true, false), None);
    assert_eq!(next_download(true, false, true), None);
}

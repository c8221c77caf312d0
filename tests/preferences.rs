use pictocache::error::AppError;
use pictocache::preferences::{
    normalize_date_format, normalize_locale, normalize_time_format, normalize_timezone,
    normalize_week_start,
};

#[test]
fn timezone_defaults_and_checks() {
    assert_eq!(normalize_timezone(None), Ok("UTC".to_string()));
    assert_eq!(normalize_timezone(Some("   ")), Ok("UTC".to_string()));
    assert_eq!(normalize_timezone(Some(" Europe/Madrid ")), Ok("Europe/Madrid".to_string()));
    assert!(matches!(normalize_timezone(Some("Europe Madrid")), Err(AppError::BadRequest(_))));
    assert!(matches!(normalize_timezone(Some(&"A".repeat(65))), Err(AppError::BadRequest(_))));
}

#[test]
fn locale_defaults_and_checks() {
    assert_eq!(normalize_locale(None), Ok("en-GB".to_string()));
    assert_eq!(normalize_locale(Some("es_ES")), Ok("es_ES".to_string()));
    assert!(matches!(normalize_locale(Some("a-very-long-locale")), Err(AppError::BadRequest(_))));
    assert!(matches!(normalize_locale(Some("es.ES")), Err(AppError::BadRequest(_))));
}

#[test]
fn date_and_time_formats() {
    assert_eq!(normalize_date_format(None), Ok("locale".to_string()));
    assert_eq!(normalize_date_format(Some(" MM/DD/YYYY ")), Ok("mm/dd/yyyy".to_string()));
    assert!(matches!(normalize_date_format(Some("yyyy")), Err(AppError::BadRequest(_))));
    assert_eq!(normalize_time_format(Some("12H")), Ok("12h".to_string()));
    assert_eq!(normalize_time_format(None), Ok("24h".to_string()));
    assert!(matches!(normalize_time_format(Some("am")), Err(AppError::BadRequest(_))));
}

#[test]
fn week_start_range() {
    assert_eq!(normalize_week_start(None), Ok(1));
    assert_eq!(normalize_week_start(Some(7)), Ok(7));
    assert!(matches!(normalize_week_start(Some(0)), Err(AppError::BadRequest(_))));
    assert!(matches!(normalize_week_start(Some(8)), Err(AppError::BadRequest(_))));
}

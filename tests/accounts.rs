use pictocache::accounts::{
    parse_flag, require_admin, require_parent, validate_password_strength, AuthUser, ConfigError,
    UserRole,
};
use pictocache::error::AppError;
use pictocache::rows::{row_to_dto, saved_row_to_dto, PictogramRow, SavedRow};

fn user(role: UserRole) -> AuthUser {
    AuthUser { user_id: "u1".to_string(), role, must_change_password: false }
}

#[test]
fn password_rules() {
    assert!(matches!(validate_password_strength("Ab1"), Err(AppError::BadRequest(_))));
    assert!(matches!(validate_password_strength("alllowercase1"), Err(AppError::BadRequest(_))));
    assert!(matches!(validate_password_strength("NoDigitsHere"), Err(AppError::BadRequest(_))));
    assert_eq!(validate_password_strength("Valid123"), Ok(()));
    assert_eq!(validate_password_strength("ärger1Öl"), Ok(()));
}

#[test]
fn password_errors_name_the_first_broken_rule() {
    assert_eq!(
        validate_password_strength("Ab1"),
        Err(AppError::BadRequest("Password must be at least 8 characters".to_string()))
    );
    assert_eq!(
        validate_password_strength("abcdefg1"),
        Err(AppError::BadRequest("Password must contain at least one uppercase letter".to_string()))
    );
    assert_eq!(
        validate_password_strength("Abcdefgh"),
        Err(AppError::BadRequest("Password must contain at least one number".to_string()))
    );
}

#[test]
fn roles_and_guards() {
    assert_eq!(UserRole::Admin.as_str(), "admin");
    assert_eq!(UserRole::Parent.as_str(), "parent");
    assert_eq!(UserRole::Child.as_str(), "child");
    assert_eq!(require_admin(&user(UserRole::Admin)), Ok(()));
    assert_eq!(require_admin(&user(UserRole::Parent)), Err(AppError::Forbidden));
    assert_eq!(require_parent(&user(UserRole::Parent)), Ok(()));
    assert_eq!(require_parent(&user(UserRole::Child)), Err(AppError::Forbidden));
}

#[test]
fn switch_values() {
    assert!(parse_flag(" TRUE "));
    assert!(parse_flag("on"));
    assert!(parse_flag("1"));
    assert!(!parse_flag("0"));
    assert!(!parse_flag("enabled"));
}

#[test]
fn config_error_messages() {
    assert_eq!(ConfigError::MissingVar("DB_NAME".to_string()).message(), "Missing environment variable: DB_NAME");
    assert_eq!(
        ConfigError::InvalidValue("DB_PORT".to_string(), "x".to_string()).message(),
        "Invalid value for DB_PORT: x"
    );
}

#[test]
fn store_rows_become_records() {
    let row = PictogramRow {
        arasaac_id: 3,
        keywords_text: "ball||toy".to_string(),
        category: Some("toys".to_string()),
        categories_text: None,
        tags_text: Some(" play ".to_string()),
        language: "en".to_string(),
        image_url: None,
        local_file_path: Some("/assets/pictograms/toys/3.svg".to_string()),
        width: None,
        height: None,
        license: "CC".to_string(),
        description: None,
    };
    let d = row_to_dto(row);
    assert_eq!(d.keywords, vec!["ball", "toy"]);
    assert!(d.categories.is_empty());
    assert_eq!(d.tags, vec!["play"]);
    assert_eq!(d.local_file_path.as_deref(), Some("/assets/pictograms/toys/3.svg"));
}

#[test]
fn uncached_bookmark_rows_get_defaults() {
    let row = SavedRow {
        arasaac_id: 42,
        label: Some("Lunch".to_string()),
        used_count: 4,
        keywords_text: None,
        categories_text: None,
        tags_text: None,
        language: None,
        image_url: None,
        local_file_path: None,
        license: None,
        description: None,
    };
    let d = saved_row_to_dto(row);
    assert_eq!(d.language, "en");
    assert_eq!(d.license, pictocache::model::DEFAULT_LICENSE);
    assert_eq!(d.used_count, 4);
    assert!(d.keywords.is_empty());
}

use pictocache::calendar::{
    assignment_applies_to_date, assignment_priority, is_valid_document_type, parse_iso_week,
    AssignmentRow,
};
use pictocache::text::compare_text;

fn window(start: Option<&str>, end: Option<&str>) -> AssignmentRow {
    AssignmentRow {
        id: "a".to_string(),
        schedule_id: "s".to_string(),
        day_of_week: 1,
        start_date: start.map(|s| s.to_string()),
        end_date: end.map(|s| s.to_string()),
    }
}

#[test]
fn iso_weeks_are_parsed() {
    assert_eq!(parse_iso_week("2025-W07"), Some((2025, 7)));
    assert_eq!(parse_iso_week(" 2025-W53 "), Some((2025, 53)));
    assert_eq!(parse_iso_week("+2025-W1"), Some((2025, 1)));
}

#[test]
fn malformed_iso_weeks_are_rejected() {
    assert_eq!(parse_iso_week("2025-W00"), None);
    assert_eq!(parse_iso_week("2025-W54"), None);
    assert_eq!(parse_iso_week("2025W07"), None);
    assert_eq!(parse_iso_week("2025-07"), None);
    assert_eq!(parse_iso_week("-2025-W07"), None);
    assert_eq!(parse_iso_week("20x5-W07"), None);
    assert_eq!(parse_iso_week("2025-W"), None);
    assert_eq!(parse_iso_week("9999999999-W01"), None);
    assert_eq!(parse_iso_week("2025-W+7"), Some((2025, 7)));
    assert_eq!(parse_iso_week("2025-W-7"), None);
}

#[test]
fn assignment_windows() {
    assert!(assignment_applies_to_date(&window(None, None), "2025-02-10"));
    assert!(assignment_applies_to_date(&window(Some("2025-02-10"), None), "2025-02-10"));
    assert!(!assignment_applies_to_date(&window(Some("2025-02-11"), None), "2025-02-10"));
    assert!(assignment_applies_to_date(&window(Some("2025-01-01"), Some("2025-12-31")), "2025-06-01"));
    assert!(!assignment_applies_to_date(&window(None, Some("2025-01-31")), "2025-02-01"));
}

#[test]
fn assignment_priorities() {
    assert_eq!(assignment_priority(&window(None, None)), (0, None));
    assert_eq!(assignment_priority(&window(None, Some("2025-01-31"))), (1, None));
    assert_eq!(assignment_priority(&window(Some("2025-01-01"), None)), (1, Some("2025-01-01")));
}

#[test]
fn text_order() {
    let a: Vec<char> = "abc".chars().collect();
    let b: Vec<char> = "abd".chars().collect();
    let p: Vec<char> = "ab".chars().collect();
    assert!(compare_text(&a, &b) < 0);
    assert!(compare_text(&b, &a) > 0);
    assert_eq!(compare_text(&a, &a), 0);
    assert!(compare_text(&p, &a) < 0);
}

#[test]
fn document_types() {
    assert!(is_valid_document_type("FIRST_THEN"));
    assert!(is_valid_document_type("REWARD_TRACKER"));
    assert!(!is_valid_document_type("first_then"));
    assert!(!is_valid_document_type(""));
}

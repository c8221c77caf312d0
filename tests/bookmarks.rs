use pictocache::bookmarks::BookmarkBook;

#[test]
fn resaving_without_label_keeps_label_and_count() {
    let mut book = BookmarkBook::new();
    book.save("u", 42, Some("Lunch".to_string()));
    book.record_use("u", 42);
    let before = book.get("u", 42).unwrap();
    book.save("u", 42, None);
    let after = book.get("u", 42).unwrap();
    assert_eq!(after.label.as_deref(), Some("Lunch"));
    assert_eq!(after.used_count, before.used_count);
    assert_eq!(after.used_count, 1);
}

#[test]
fn resaving_with_label_replaces_it() {
    let mut book = BookmarkBook::new();
    book.save("u", 42, Some("Lunch".to_string()));
    book.save("u", 42, Some("Dinner".to_string()));
    assert_eq!(book.get("u", 42).unwrap().label.as_deref(), Some("Dinner"));
}

#[test]
fn record_use_without_bookmark_does_nothing() {
    let mut book = BookmarkBook::new();
    book.record_use("u", 1);
    assert!(book.get("u", 1).is_none());
}

#[test]
fn unsave_removes_and_tolerates_absence() {
    let mut book = BookmarkBook::new();
    book.save("u", 1, None);
    book.save("v", 1, None);
    book.unsave("u", 1);
    book.unsave("u", 1);
    assert!(book.get("u", 1).is_none());
    assert!(book.get("v", 1).is_some());
}

#[test]
fn listing_orders_by_uses_then_recency() {
    let mut book = BookmarkBook::new();
    book.save("u", 1, None);
    book.save("u", 2, None);
    book.save("u", 3, None);
    book.save("other", 9, None);
    book.record_use("u", 1);
    book.record_use("other", 9);
    let ids: Vec<i32> = book.list_for_user("u").iter().map(|e| e.arasaac_id).collect();
    assert_eq!(ids, vec![1, 3, 2]);
    assert!(book.list_for_user("nobody").is_empty());
}

#[test]
fn listing_is_capped() {
    let mut book = BookmarkBook::new();
    for id in 0..250 {
        book.save("u", id, None);
    }
    let list = book.list_for_user("u");
    assert_eq!(list.len(), 200);
    assert_eq!(list[0].arasaac_id, 249);
}

#[test]
fn new_book_has_room() {
    let mut book = BookmarkBook::new();
    assert!(book.has_room());
    book.save("u", 1, None);
    assert!(book.has_room());
}

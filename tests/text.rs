use pictocache::text::{lower_char, normalize_language, sanitize_segment, trim_text};
use pictocache::tokens::{
    join_tokens, split_tokens, substring_pattern, to_fulltext_boolean, uses_structured_search,
    MIN_INDEXED_WORD_CHARS, MIN_STRUCTURED_QUERY_CHARS,
};

#[test]
fn language_is_trimmed_and_lowered() {
    assert_eq!(normalize_language(" ES "), "es");
    assert_eq!(normalize_language("pt-BR"), "pt-br");
}

#[test]
fn short_language_defaults_to_english() {
    assert_eq!(normalize_language(" x "), "en");
    assert_eq!(normalize_language(""), "en");
}

#[test]
fn trim_removes_unicode_whitespace() {
    assert_eq!(trim_text("\u{3000} hello world\t\n"), "hello world");
    assert_eq!(trim_text("   "), "");
    assert_eq!(trim_text("\u{a0}x\u{2009}"), "x");
}

#[test]
fn lower_char_only_touches_ascii_capitals() {
    assert_eq!(lower_char('Q'), 'q');
    assert_eq!(lower_char('q'), 'q');
    assert_eq!(lower_char('Ä'), 'Ä');
}

#[test]
fn segment_is_slugified() {
    assert_eq!(sanitize_segment("Food & Drink"), "food---drink");
    assert_eq!(sanitize_segment("  -Toys_2- "), "toys_2");
    assert_eq!(sanitize_segment("Ñandú"), "and");
    assert_eq!(sanitize_segment("a.b"), "a-b");
}

#[test]
fn empty_segment_is_uncategorized() {
    assert_eq!(sanitize_segment("  "), "uncategorized");
    assert_eq!(sanitize_segment("&&"), "uncategorized");
    assert_eq!(sanitize_segment(""), "uncategorized");
}

#[test]
fn stored_tokens_are_split_and_trimmed() {
    assert_eq!(split_tokens("a || b ||  || c"), vec!["a", "b", "c"]);
    assert_eq!(split_tokens("a|||b"), vec!["a", "|b"]);
    assert!(split_tokens("").is_empty());
}

#[test]
fn tokens_are_joined_without_blanks() {
    let v = vec![" a ".to_string(), "".to_string(), "b".to_string()];
    assert_eq!(join_tokens(&v), "a||b");
    assert_eq!(join_tokens(&vec![]), "");
}

#[test]
fn join_then_split_round_trip() {
    let v = vec!["red ball".to_string(), "toy".to_string()];
    assert_eq!(split_tokens(&join_tokens(&v)), v);
}

#[test]
fn fulltext_expression_strips_operators() {
    assert_eq!(to_fulltext_boolean("+ab c (dog)"), "ab* dog*");
    assert_eq!(to_fulltext_boolean("a"), "");
    assert_eq!(to_fulltext_boolean("hot-dog"), "hot* dog*");
}

#[test]
fn three_character_query_uses_substring_matching() {
    assert!(!uses_structured_search("eat", MIN_STRUCTURED_QUERY_CHARS, MIN_INDEXED_WORD_CHARS));
    assert_eq!(substring_pattern("EAT"), "%eat%");
}

#[test]
fn structured_search_needs_long_words() {
    assert!(uses_structured_search("eats", MIN_STRUCTURED_QUERY_CHARS, MIN_INDEXED_WORD_CHARS));
    assert!(!uses_structured_search("a bcd", MIN_STRUCTURED_QUERY_CHARS, MIN_INDEXED_WORD_CHARS));
    assert!(!uses_structured_search("abcd -", MIN_STRUCTURED_QUERY_CHARS, MIN_INDEXED_WORD_CHARS));
    assert!(!uses_structured_search("    ", MIN_STRUCTURED_QUERY_CHARS, MIN_INDEXED_WORD_CHARS));
    assert!(uses_structured_search("hot-dog", MIN_STRUCTURED_QUERY_CHARS, MIN_INDEXED_WORD_CHARS));
}

#[test]
fn substring_pattern_lowercases_unicode() {
    assert_eq!(substring_pattern("ÄPFEL"), "%äpfel%");
}

use wrapperize::escape::{escape_ascii, escape_quote, escape_single_quoted};

#[test]
fn succeeds() {
    assert_eq!(escape_quote("hello", '"'), "hello");
    assert_eq!(escape_quote("he\"ll\"o", '"'), "he\\\"ll\\\"o");
    assert_eq!(escape_quote("he'll'o", '"'), "he'll'o");
    assert_eq!(escape_quote("he'll'o", '\''), "he\\'ll\\'o");
}

#[test]
fn escape_quote_leaves_quote_free_text_unchanged() {
    assert_eq!(escape_quote("", '"'), "");
    assert_eq!(escape_quote("/usr/bin/foo", '"'), "/usr/bin/foo");
    assert_eq!(escape_quote("a\\b", '"'), "a\\b");
}

#[test]
fn escape_quote_prefixes_every_occurrence() {
    let escaped = escape_quote("\"\"\"", '"');
    assert_eq!(escaped, "\\\"\\\"\\\"");
    assert_eq!(escaped.len(), 6);
}

#[test]
fn escape_ascii_passes_printable_bytes_through() {
    let bytes: Vec<u8> = b"plain text 123 ~".to_vec();
    assert_eq!(escape_ascii(&bytes), "plain text 123 ~");
}

#[test]
fn escape_ascii_escapes_specials_and_hex() {
    let bytes: Vec<u8> = vec![9, 13, 10, 92, 39, 34, 0, 0x7f, 0xff];
    assert_eq!(escape_ascii(&bytes), "\\t\\r\\n\\\\\\'\\\"\\x00\\x7f\\xff");
}

#[test]
fn escape_single_quoted_rewrites_quotes() {
    assert_eq!(escape_single_quoted("plain"), "plain");
    assert_eq!(escape_single_quoted("it's"), "it'\\''s");
    assert_eq!(escape_single_quoted("''"), "'\\'''\\''");
}

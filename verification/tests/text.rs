//! Tests of the string helpers: slice equality and class-token matching.

use replay_scraper::text::{has_token, str_eq};

#[test]
fn str_eq_agrees_with_equality() {
    assert!(str_eq("", ""));
    assert!(str_eq("GET", "GET"));
    assert!(!str_eq("GET", "PUT"));
    assert!(!str_eq("GET", "GETX"));
    assert!(!str_eq("GETX", "GET"));
    assert!(str_eq("caf\u{e9}", "caf\u{e9}"));
    assert!(!str_eq("caf\u{e9}", "cafe"));
}

#[test]
fn token_found_alone_and_among_others() {
    assert!(has_token("linklist", "linklist"));
    assert!(has_token("menu linklist wide", "linklist"));
    assert!(has_token("linklist wide", "linklist"));
    assert!(has_token("menu linklist", "linklist"));
    assert!(has_token("a\tlinklist\nb", "linklist"));
}

#[test]
fn token_requires_whitespace_boundaries() {
    assert!(!has_token("linklists", "linklist"));
    assert!(!has_token("xlinklist", "linklist"));
    assert!(!has_token("link list", "linklist"));
    assert!(!has_token("", "linklist"));
    assert!(!has_token("linklist", ""));
}

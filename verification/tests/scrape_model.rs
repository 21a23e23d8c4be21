//! Tests of the link extraction on hand-built element lists, independent
//! of any HTML parsing.

use replay_scraper::dom::Elem;
use replay_scraper::scrape::scrape_links;

const BASE: &str = "http://replay.pokemonshowdown.com";

fn elem(depth: usize, name: &str, attrs: &[(&str, &str)]) -> Elem {
    Elem {
        depth,
        name: name.to_string(),
        attrs: attrs.iter().map(|(k, v)| (k.to_string(), v.to_string())).collect(),
    }
}

#[test]
fn links_come_from_second_container_only() {
    let elems = vec![
        elem(1, "html", &[]),
        elem(2, "body", &[]),
        elem(3, "ul", &[("class", "linklist")]),
        elem(4, "li", &[]),
        elem(5, "a", &[("href", "/featured")]),
        elem(3, "ul", &[("class", "linklist")]),
        elem(4, "li", &[]),
        elem(5, "a", &[("href", "/one")]),
        elem(4, "li", &[]),
        elem(5, "a", &[("href", "/two")]),
    ];
    let links = scrape_links(&elems);
    assert_eq!(links, vec![format!("{}/one", BASE), format!("{}/two", BASE)]);
}

#[test]
fn extraction_stops_at_subtree_end() {
    let elems = vec![
        elem(1, "html", &[]),
        elem(2, "body", &[]),
        elem(3, "ul", &[("class", "linklist")]),
        elem(3, "ul", &[("class", "linklist")]),
        elem(4, "li", &[]),
        elem(5, "a", &[("href", "/inside")]),
        elem(3, "div", &[]),
        elem(4, "li", &[]),
        elem(5, "a", &[("href", "/outside")]),
    ];
    let links = scrape_links(&elems);
    assert_eq!(links, vec![format!("{}/inside", BASE)]);
}

#[test]
fn anchor_directly_under_container_is_skipped() {
    let elems = vec![
        elem(1, "html", &[]),
        elem(2, "body", &[]),
        elem(3, "ul", &[("class", "linklist")]),
        elem(3, "ul", &[("class", "linklist")]),
        elem(4, "a", &[("href", "/no-list-item")]),
        elem(4, "li", &[]),
        elem(5, "a", &[("href", "/kept")]),
    ];
    let links = scrape_links(&elems);
    assert_eq!(links, vec![format!("{}/kept", BASE)]);
}

#[test]
fn duplicate_links_are_kept() {
    let elems = vec![
        elem(1, "html", &[]),
        elem(2, "body", &[]),
        elem(3, "ul", &[("class", "linklist")]),
        elem(3, "ul", &[("class", "linklist")]),
        elem(4, "li", &[]),
        elem(5, "a", &[("href", "/same")]),
        elem(4, "li", &[]),
        elem(5, "a", &[("href", "/same")]),
    ];
    let links = scrape_links(&elems);
    assert_eq!(links, vec![format!("{}/same", BASE), format!("{}/same", BASE)]);
}

#[test]
fn no_elements_no_links() {
    let links = scrape_links(&Vec::new());
    assert!(links.is_empty());
}

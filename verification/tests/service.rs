//! Tests of the routing decisions and the response assembly.

use replay_scraper::service::{
    dispatch, handle_fetched, not_found_response, upstream_error_response, RequestStep,
};

#[test]
fn get_root_proceeds_to_fetch() {
    assert!(matches!(dispatch("GET", "/"), RequestStep::FetchUpstream));
}

#[test]
fn other_path_is_not_found() {
    match dispatch("GET", "/replays") {
        RequestStep::Respond(resp) => {
            assert_eq!(resp.status, 404);
            assert_eq!(resp.body.as_str(), "");
            assert_eq!(resp.content_length, None);
        }
        RequestStep::FetchUpstream => panic!("GET of a path other than / must not fetch"),
    }
}

#[test]
fn other_method_is_not_found() {
    match dispatch("POST", "/") {
        RequestStep::Respond(resp) => {
            assert_eq!(resp.status, 404);
            assert_eq!(resp.body.as_str(), "");
            assert_eq!(resp.content_length, None);
        }
        RequestStep::FetchUpstream => panic!("a non-GET of / must not fetch"),
    }
}

#[test]
fn not_found_response_shape() {
    let resp = not_found_response();
    assert_eq!(resp.status, 404);
    assert_eq!(resp.body.as_str(), "");
    assert_eq!(resp.content_length, None);
}

#[test]
fn upstream_error_response_shape() {
    let resp = upstream_error_response();
    assert_eq!(resp.status, 502);
    assert_eq!(resp.body.as_str(), "");
    assert_eq!(resp.content_length, None);
}

#[test]
fn fetched_body_becomes_json_response() {
    let html = "<html><body>\
                <ul class=\"linklist\"></ul>\
                <ul class=\"linklist\"><li><a href=\"/battle-77\">b</a></li></ul>\
                </body></html>";
    let resp = handle_fetched(html);
    assert_eq!(resp.status, 200);
    assert_eq!(
        resp.body.as_str(),
        "{\"replays\":[\"http://replay.pokemonshowdown.com/battle-77\"]}"
    );
    assert_eq!(resp.content_length, Some(resp.body.len() as u64));
}

#[test]
fn content_length_counts_bytes_not_characters() {
    // A multi-byte character in the href makes the byte length exceed the
    // character count.
    let html = "<html><body>\
                <ul class=\"linklist\"></ul>\
                <ul class=\"linklist\"><li><a href=\"/caf\u{e9}\">c</a></li></ul>\
                </body></html>";
    let resp = handle_fetched(html);
    assert_eq!(resp.status, 200);
    assert!(resp.body.contains("caf\u{e9}"));
    assert_eq!(resp.content_length, Some(resp.body.len() as u64));
    assert!(resp.body.len() as u64 > resp.body.chars().count() as u64);
}

#[test]
fn empty_upstream_body_yields_empty_list_response() {
    let resp = handle_fetched("");
    assert_eq!(resp.status, 200);
    assert_eq!(resp.body.as_str(), "{\"replays\":[]}");
    assert_eq!(resp.content_length, Some(resp.body.len() as u64));
}

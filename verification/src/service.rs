//! The request-handling decisions of the service: routing, and the
//! assembly of each response.  The event loop performs the network work
//! and feeds its outcomes back into these functions.

use vstd::prelude::*;
use crate::dom::doc_elements;
use crate::json::replays_json;
use crate::scrape::scraped_links;
use crate::text::str_eq;

verus! {

/// An HTTP response, reduced to what the service ever sets: a status
/// code, an optional `Content-Length` header, and a body.
pub struct HttpResponse {
    /// The status code.
    pub status: u16,
    /// The value of the `Content-Length` header, if the response carries
    /// one.
    pub content_length: Option<u64>,
    /// The response body.
    pub body: String,
}

/// What to do with an incoming request: answer it at once, or fetch the
/// upstream page and answer from its body.
pub enum RequestStep {
    /// Answer with this response, without touching the upstream site.
    Respond(HttpResponse),
    /// Fetch the upstream page; its outcome decides the response.
    FetchUpstream,
}

/// The request matches the single supported route: method `GET`, path `/`.
pub open spec fn is_replays_route(method: Seq<char>, path: Seq<char>) -> bool {
    method == "GET"@ && path == "/"@
}

/// A response with the given status, an empty body and no
/// `Content-Length` header.
fn empty_response(status: u16) -> (r: HttpResponse)
    ensures
        r.status == status,
        r.content_length is None,
        r.body@ == Seq::<char>::empty(),
{
    HttpResponse { status, content_length: None, body: String::new() }
}

/// The uniform answer for every unmatched route: status 404, empty body.
pub fn not_found_response() -> (r: HttpResponse)
    ensures
        r.status == 404,
        r.content_length is None,
        r.body@ == Seq::<char>::empty(),
{
    empty_response(404)
}

/// The answer when the upstream fetch fails or its body is not UTF-8:
/// status 502, empty body.  The failure stays local to the one request.
pub fn upstream_error_response() -> (r: HttpResponse)
    ensures
        r.status == 502,
        r.content_length is None,
        r.body@ == Seq::<char>::empty(),
{
    empty_response(502)
}

/// Decides a request.  Exactly a `GET` of `/` proceeds to the upstream
/// fetch; any other method or path is answered at once with status 404
/// and an empty body.
pub fn dispatch(method: &str, path: &str) -> (r: RequestStep)
    ensures
        is_replays_route(method@, path@) <==> r is FetchUpstream,
        !is_replays_route(method@, path@) ==> (r matches RequestStep::Respond(resp)
            && resp.status == 404 && resp.content_length is None && resp.body@ == Seq::<
            char,
        >::empty()),
{
    if str_eq(method, "GET") && str_eq(path, "/") {
        RequestStep::FetchUpstream
    } else {
        RequestStep::Respond(not_found_response())
    }
}

/// Builds the success response from the fetched upstream body: status
/// 200, the scraped JSON as the body, and a `Content-Length` header equal
/// to the body's exact byte length.
pub fn handle_fetched(upstream_body: &str) -> (r: HttpResponse)
    ensures
        r.status == 200,
        r.body@ == replays_json(scraped_links(doc_elements(upstream_body@))),
        r.content_length == Some((vstd::utf8::encode_utf8(r.body@).len() as usize) as u64),
{
    let json = crate::scrape::scrape_replays(upstream_body);
    let byte_len = json.as_str().len();
    HttpResponse { status: 200, content_length: Some(byte_len as u64), body: json }
}

} // verus!

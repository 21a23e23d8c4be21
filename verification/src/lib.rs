//! A verified scraper for the replay listing of an upstream HTML page.
//!
//! The library models a parsed HTML document as its elements in document
//! order, extracts the anchors that sit in list items of the second
//! "linklist" container, turns their `href` attributes into fully qualified
//! links, and assembles the JSON response and the HTTP routing decisions of
//! the surrounding service.  The event loop, the sockets and the outbound
//! fetch live outside the library.

use vstd::prelude::*;

pub mod dom;
pub mod json;
pub mod scrape;
pub mod service;
pub mod text;

verus! {

/// The fixed base URL of the upstream replay site.  Every extracted link is
/// this base followed verbatim by the anchor's `href` value.
pub open spec fn upstream_base() -> Seq<char> {
    "http://replay.pokemonshowdown.com"@
}

/// Executable counterpart of [`upstream_base`].
pub fn upstream_base_url() -> (r: &'static str)
    ensures
        r@ == upstream_base(),
{
    "http://replay.pokemonshowdown.com"
}

} // verus!

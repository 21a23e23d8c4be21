//! The document model: the elements of a parsed HTML document in document
//! order, each with its tag name, its attributes and its depth, and the
//! trusted parser that produces them.

use vstd::prelude::*;
use kuchiki::traits::TendrilSink;
use kuchiki::iter::NodeIterator;

verus! {

/// One element of a parsed HTML document.
///
/// A document is a sequence of these in document order (the order of a
/// pre-order traversal of the tree).  The tree shape is kept through
/// `depth`: the number of ancestor nodes of the element.  A child element
/// sits directly under its parent element and has the parent's depth plus
/// one, so the parent of an element is the nearest preceding element of
/// smaller depth.
pub struct Elem {
    /// Number of ancestor nodes in the document tree.
    pub depth: usize,
    /// The local tag name, lower-cased by the parser for HTML elements.
    pub name: String,
    /// The attributes as (name, value) pairs.  Attribute names are unique
    /// per namespace; an attribute without a namespace comes before any
    /// namespaced attribute of the same name.
    pub attrs: Vec<(String, String)>,
}

/// The elements of the document that permissive HTML parsing builds from
/// `text`, in document order.  Parsing never fails; the result depends on
/// `text` alone.
pub uninterp spec fn doc_elements(text: Seq<char>) -> Seq<Elem>;

/// Relies on `kuchiki::parse_html` (spec-conforming, error-tolerant HTML
/// parsing that never fails), `NodeRef::descendants` (pre-order tree
/// traversal), `NodeRef::ancestors` and `ElementData`'s public fields: the
/// call yields every element of the parsed document in document order,
/// carrying its tag name, its attributes and its number of ancestors.
#[verifier::external_body]
pub(crate) fn parse_document_elements(text: &str) -> (r: Vec<Elem>)
    ensures
        r@ == doc_elements(text@),
{
    let doc = kuchiki::parse_html().one(text);
    let mut out: Vec<Elem> = Vec::new();
    for el in doc.descendants().elements() {
        let depth = el.as_node().ancestors().count();
        let name = el.name.local.to_string();
        let attrs_ref = el.attributes.borrow();
        let attrs = attrs_ref.map.iter().map(|(k, a)| (k.local.to_string(), a.value.clone())).collect();
        out.push(Elem { depth, name, attrs });
    }
    out
}

/// The value of the first attribute named `name`, if any.
pub open spec fn attr_value_from(attrs: Seq<(String, String)>, name: Seq<char>, i: int) -> Option<
    Seq<char>,
>
    decreases attrs.len() - i,
{
    if i < 0 || i >= attrs.len() {
        None
    } else if attrs[i].0@ == name {
        Some(attrs[i].1@)
    } else {
        attr_value_from(attrs, name, i + 1)
    }
}

/// The value of the attribute named `name`, if the element has one.
pub open spec fn attr_value(attrs: Seq<(String, String)>, name: Seq<char>) -> Option<Seq<char>> {
    attr_value_from(attrs, name, 0)
}

/// The view of an optional string.
pub open spec fn opt_str_view(o: Option<String>) -> Option<Seq<char>> {
    match o {
        Some(s) => Some(s@),
        None => None,
    }
}

/// Looks up the first attribute named `name` and returns a copy of its
/// value.
pub fn attr_value_of(attrs: &Vec<(String, String)>, name: &str) -> (r: Option<String>)
    ensures
        opt_str_view(r) == attr_value(attrs@, name@),
{
    let mut i: usize = 0;
    while i < attrs.len()
        invariant
            i <= attrs@.len(),
            attr_value(attrs@, name@) == attr_value_from(attrs@, name@, i as int),
        decreases attrs@.len() - i,
    {
        if crate::text::str_eq(attrs[i].0.as_str(), name) {
            return Some(attrs[i].1.clone());
        }
        i += 1;
    }
    None
}

} // verus!

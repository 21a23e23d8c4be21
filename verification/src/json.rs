//! Assembly of the JSON response body: a single-field object whose
//! `"replays"` field is the array of extracted links.

use vstd::prelude::*;
use crate::scrape::string_views;

verus! {

/// A character that JSON serialization emits unchanged inside a string:
/// anything but a double quote, a backslash or a control character.
pub open spec fn plain_json_char(c: char) -> bool {
    c != '"' && c != '\\' && (c as u32) >= 0x20
}

/// A string that JSON serialization emits unchanged, between quotes.
pub open spec fn plain_json_str(s: Seq<char>) -> bool {
    forall|i: int| 0 <= i < s.len() ==> plain_json_char(#[trigger] s[i])
}

/// Every string of the sequence is emitted unchanged.
pub open spec fn all_plain(elems: Seq<Seq<char>>) -> bool {
    forall|i: int| 0 <= i < elems.len() ==> plain_json_str(#[trigger] elems[i])
}

/// A string between double quotes.
pub open spec fn quoted(s: Seq<char>) -> Seq<char> {
    seq!['"'] + s + seq!['"']
}

/// The comma-separated quoted items of a JSON array of plain strings.
pub open spec fn plain_json_items(elems: Seq<Seq<char>>) -> Seq<char>
    decreases elems.len(),
{
    if elems.len() == 0 {
        Seq::empty()
    } else if elems.len() == 1 {
        quoted(elems[0])
    } else {
        plain_json_items(elems.drop_last()) + seq![','] + quoted(elems.last())
    }
}

/// The JSON array holding the given plain strings.
pub open spec fn plain_json_array(elems: Seq<Seq<char>>) -> Seq<char> {
    seq!['['] + plain_json_items(elems) + seq![']']
}

/// The JSON array that serialization produces for an arbitrary sequence of
/// strings; a function of the strings alone.
pub uninterp spec fn json_string_array(elems: Seq<Seq<char>>) -> Seq<char>;

/// Relies on `serde_json::to_string` applied to a vector of strings: the
/// output is the JSON array of the strings, depends on the strings alone,
/// and, when no string holds a quote, a backslash or a control character
/// (the only characters its serializer escapes), it is the plain
/// comma-separated form with each string quoted verbatim.  Serializing
/// strings cannot fail.
#[verifier::external_body]
fn json_encode_strings(v: &Vec<String>) -> (r: String)
    ensures
        r@ == json_string_array(string_views(v@)),
        all_plain(string_views(v@)) ==> r@ == plain_json_array(string_views(v@)),
{
    serde_json::to_string(v).unwrap()
}

/// The response body for a list of links: a JSON object with the single
/// field `"replays"` holding the array of the links.
pub open spec fn replays_json(elems: Seq<Seq<char>>) -> Seq<char> {
    "{\"replays\":"@ + json_string_array(elems) + "}"@
}

/// The response body when every link is plain.
pub open spec fn replays_json_plain(elems: Seq<Seq<char>>) -> Seq<char> {
    "{\"replays\":"@ + plain_json_array(elems) + "}"@
}

/// Serializes the list of links to the JSON response body.
pub fn replays_json_string(links: &Vec<String>) -> (r: String)
    ensures
        r@ == replays_json(string_views(links@)),
        all_plain(string_views(links@)) ==> r@ == replays_json_plain(string_views(links@)),
        links@.len() == 0 ==> r@ == "{\"replays\":[]}"@,
{
    let arr = json_encode_strings(links);
    let mut out = "{\"replays\":".to_owned();
    out.append(arr.as_str());
    out.append("}");
    proof {
        if links@.len() == 0 {
            assert(string_views(links@).len() == 0);
            assert(all_plain(string_views(links@)));
            assert(plain_json_array(string_views(links@)) =~= seq!['[', ']']);
            reveal_strlit("{\"replays\":");
            reveal_strlit("{\"replays\":[]}");
            reveal_strlit("}");
            assert("{\"replays\":"@ + plain_json_array(string_views(links@)) + "}"@
                =~= "{\"replays\":[]}"@);
        }
    }
    out
}

} // verus!

//! The scraping algorithm: find the second "linklist" container among the
//! document's elements, and collect, in document order, the links of the
//! anchors that sit directly under list items inside that container.

use vstd::prelude::*;
use crate::dom::{attr_value, Elem};
use crate::text::{has_class_token, has_token, str_eq};
use crate::upstream_base;

verus! {

/// The element carries the class `linklist`.
pub open spec fn is_link_list(e: Elem) -> bool {
    match attr_value(e.attrs@, "class"@) {
        Some(v) => has_class_token(v, "linklist"@),
        None => false,
    }
}

/// Executable counterpart of [`is_link_list`].
pub fn is_link_list_elem(e: &Elem) -> (r: bool)
    ensures
        r == is_link_list(*e),
{
    match crate::dom::attr_value_of(&e.attrs, "class") {
        Some(v) => has_token(v.as_str(), "linklist"),
        None => false,
    }
}

/// The index of the `k`-th element at or after `from` that carries the
/// class `linklist`, counting from zero.
pub open spec fn nth_link_list(s: Seq<Elem>, from: int, k: nat) -> Option<int>
    decreases s.len() - from,
{
    if from < 0 || from >= s.len() {
        None
    } else if is_link_list(s[from]) {
        if k == 0 {
            Some(from)
        } else {
            nth_link_list(s, from + 1, (k - 1) as nat)
        }
    } else {
        nth_link_list(s, from + 1, k)
    }
}

/// The index of the second `linklist` container, the one whose links are
/// extracted; the first such container lists featured replays and is
/// skipped by design.
pub open spec fn second_link_list(s: Seq<Elem>) -> Option<int> {
    nth_link_list(s, 0, 1)
}

/// The number of `linklist` containers at or after `from`.
pub open spec fn link_list_count_from(s: Seq<Elem>, from: int) -> nat
    decreases s.len() - from,
{
    if from < 0 || from >= s.len() {
        0
    } else {
        (if is_link_list(s[from]) {
            1nat
        } else {
            0nat
        }) + link_list_count_from(s, from + 1)
    }
}

/// The number of `linklist` containers in the document.
pub open spec fn link_list_count(s: Seq<Elem>) -> nat {
    link_list_count_from(s, 0)
}

/// Finds the second `linklist` container.
pub fn find_second_link_list(elems: &Vec<Elem>) -> (r: Option<usize>)
    ensures
        match r {
            Some(i) => second_link_list(elems@) == Some(i as int) && i < elems@.len(),
            None => second_link_list(elems@) is None,
        },
{
    let mut seen: usize = 0;
    let mut i: usize = 0;
    while i < elems.len()
        invariant
            i <= elems@.len(),
            seen <= 1,
            second_link_list(elems@) == nth_link_list(
                elems@,
                i as int,
                (1 - seen as int) as nat,
            ),
        decreases elems@.len() - i,
    {
        if is_link_list_elem(&elems[i]) {
            if seen == 1 {
                return Some(i);
            }
            seen = 1;
        }
        i += 1;
    }
    None
}

/// The end of the subtree of the element at `i`: the index of the first
/// following element whose depth does not exceed `d`, or the length of the
/// document if there is none.
pub open spec fn subtree_end_from(s: Seq<Elem>, d: int, j: int) -> int
    decreases s.len() - j,
{
    if j < 0 || j >= s.len() {
        s.len() as int
    } else if s[j].depth <= d {
        j
    } else {
        subtree_end_from(s, d, j + 1)
    }
}

/// One past the last element of the subtree rooted at the element at `i`:
/// the elements of that subtree are exactly those at the indices
/// `i < k < subtree_end(s, i)`.
pub open spec fn subtree_end(s: Seq<Elem>, i: int) -> int
    recommends
        0 <= i < s.len(),
{
    subtree_end_from(s, s[i].depth as int, i + 1)
}

/// Bounds of [`subtree_end`]: it lies between `i + 1` and the document
/// length, every element strictly inside the subtree is deeper than the
/// root, and the element at the end, if any, is not.
pub proof fn lemma_subtree_end_bounds(s: Seq<Elem>, d: int, j: int)
    requires
        0 <= j <= s.len(),
    ensures
        j <= subtree_end_from(s, d, j) <= s.len(),
        forall|k: int| j <= k < subtree_end_from(s, d, j) ==> s[k].depth > d,
        subtree_end_from(s, d, j) < s.len() ==> s[subtree_end_from(s, d, j)].depth <= d,
    decreases s.len() - j,
{
    if j < s.len() && s[j].depth > d {
        lemma_subtree_end_bounds(s, d, j + 1);
    }
}

/// Finds the end of the subtree of the element at `i`.
pub fn subtree_end_of(elems: &Vec<Elem>, i: usize) -> (r: usize)
    requires
        i < elems@.len(),
    ensures
        r as int == subtree_end(elems@, i as int),
        i < r <= elems@.len(),
{
    let n = elems.len();
    let d = elems[i].depth;
    let mut j: usize = i + 1;
    while j < n
        invariant
            n == elems@.len(),
            i < j <= elems@.len(),
            d == elems@[i as int].depth,
            subtree_end(elems@, i as int) == subtree_end_from(elems@, d as int, j as int),
        decreases elems@.len() - j,
    {
        if elems[j].depth <= d {
            return j;
        }
        j += 1;
    }
    elems.len()
}

/// The parent of an element of depth `d`: the nearest element at or before
/// `p` whose depth is smaller than `d`.
pub open spec fn parent_from(s: Seq<Elem>, p: int, d: int) -> Option<int>
    recommends
        p < s.len(),
    decreases p + 1,
{
    if p < 0 {
        None
    } else if (s[p].depth as int) < d {
        Some(p)
    } else {
        parent_from(s, p - 1, d)
    }
}

/// The parent of the element at `k`: the nearest preceding element of
/// smaller depth, if any.
pub open spec fn parent_of(s: Seq<Elem>, k: int) -> Option<int>
    recommends
        0 <= k < s.len(),
{
    parent_from(s, k - 1, s[k].depth as int)
}

/// Finds the parent of the element at `k`.
pub fn parent_index(elems: &Vec<Elem>, k: usize) -> (r: Option<usize>)
    requires
        k < elems@.len(),
    ensures
        match r {
            Some(p) => parent_of(elems@, k as int) == Some(p as int) && p < k,
            None => parent_of(elems@, k as int) is None,
        },
{
    let d = elems[k].depth;
    let mut p: usize = k;
    while p > 0
        invariant
            p <= k < elems@.len(),
            d == elems@[k as int].depth,
            parent_of(elems@, k as int) == parent_from(elems@, p - 1, d as int),
        decreases p,
    {
        p -= 1;
        if elems[p].depth < d {
            return Some(p);
        }
    }
    None
}

/// The element at `k` contributes a link: it is an anchor, its parent is a
/// list item, and it has an `href` attribute.
pub open spec fn extracted_anchor(s: Seq<Elem>, k: int) -> bool {
    &&& 0 <= k < s.len()
    &&& s[k].name@ == "a"@
    &&& match parent_of(s, k) {
        Some(p) => s[p].name@ == "li"@,
        None => false,
    }
    &&& attr_value(s[k].attrs@, "href"@) is Some
}

/// The indices in `[lo, hi)` of the elements that contribute a link, in
/// increasing order.
pub open spec fn anchor_indices(s: Seq<Elem>, lo: int, hi: int) -> Seq<int>
    decreases hi - lo,
{
    if hi <= lo {
        Seq::empty()
    } else if extracted_anchor(s, hi - 1) {
        anchor_indices(s, lo, hi - 1).push(hi - 1)
    } else {
        anchor_indices(s, lo, hi - 1)
    }
}

/// The link contributed by the element at `k`: the upstream base URL
/// followed verbatim by the value of the `href` attribute.
pub open spec fn link_of(s: Seq<Elem>, k: int) -> Seq<char>
    recommends
        extracted_anchor(s, k),
{
    match attr_value(s[k].attrs@, "href"@) {
        Some(h) => upstream_base() + h,
        None => upstream_base(),
    }
}

/// The links contributed by the elements at indices in `[lo, hi)`, in
/// document order.
pub open spec fn links_in(s: Seq<Elem>, lo: int, hi: int) -> Seq<Seq<char>> {
    anchor_indices(s, lo, hi).map_values(|k: int| link_of(s, k))
}

/// The links the scraper extracts from a document: the links of the
/// anchors under list items inside the second `linklist` container, in
/// document order; none when the document has fewer than two such
/// containers.
pub open spec fn scraped_links(s: Seq<Elem>) -> Seq<Seq<char>> {
    match second_link_list(s) {
        Some(i) => links_in(s, i + 1, subtree_end(s, i)),
        None => Seq::empty(),
    }
}

/// The views of a sequence of strings.
pub open spec fn string_views(s: Seq<String>) -> Seq<Seq<char>> {
    s.map_values(|x: String| x@)
}

/// Extracts the links of a document's elements, in document order.
pub fn scrape_links(elems: &Vec<Elem>) -> (r: Vec<String>)
    ensures
        string_views(r@) == scraped_links(elems@),
{
    let mut out: Vec<String> = Vec::new();
    let i = match find_second_link_list(elems) {
        Some(i) => i,
        None => {
            proof {
                assert(string_views(out@) =~= scraped_links(elems@));
            }
            return out;
        },
    };
    let end = subtree_end_of(elems, i);
    let mut k: usize = i + 1;
    while k < end
        invariant
            i < elems@.len(),
            second_link_list(elems@) == Some(i as int),
            end as int == subtree_end(elems@, i as int),
            i < k <= end,
            end <= elems@.len(),
            string_views(out@) =~= links_in(elems@, i + 1, k as int),
        decreases end - k,
    {
        let ghost prev = out@;
        let mut added = false;
        if str_eq(elems[k].name.as_str(), "a") {
            if let Some(p) = parent_index(elems, k) {
                if str_eq(elems[p].name.as_str(), "li") {
                    if let Some(href) = crate::dom::attr_value_of(&elems[k].attrs, "href") {
                        let mut link = crate::upstream_base_url().to_owned();
                        link.append(href.as_str());
                        out.push(link);
                        added = true;
                        proof {
                            assert(extracted_anchor(elems@, k as int));
                            assert(out@.last()@ == link_of(elems@, k as int));
                        }
                    }
                }
            }
        }
        proof {
            let ai_old = anchor_indices(elems@, i + 1, k as int);
            let ai_new = anchor_indices(elems@, i + 1, k + 1);
            assert(string_views(prev).len() == prev.len());
            assert(links_in(elems@, i + 1, k as int).len() == ai_old.len());
            if added {
                assert(extracted_anchor(elems@, k as int));
                assert(ai_new == ai_old.push(k as int));
                assert forall|j: int| 0 <= j < out@.len() implies string_views(out@)[j]
                    == links_in(elems@, i + 1, k + 1)[j] by {
                    assert(links_in(elems@, i + 1, k + 1)[j] == link_of(elems@, ai_new[j]));
                    if j < prev.len() {
                        assert(string_views(out@)[j] == prev[j]@);
                        assert(string_views(prev)[j] == links_in(elems@, i + 1, k as int)[j]);
                        assert(links_in(elems@, i + 1, k as int)[j] == link_of(elems@, ai_old[j]));
                        assert(ai_new[j] == ai_old[j]);
                    } else {
                        assert(ai_new[j] == k as int);
                        assert(string_views(out@)[j] == out@.last()@);
                    }
                };
                assert(string_views(out@).len() == links_in(elems@, i + 1, k + 1).len());
                assert(string_views(out@) =~= links_in(elems@, i + 1, k + 1));
            } else {
                assert(!extracted_anchor(elems@, k as int));
                assert(ai_new == ai_old);
                assert(string_views(out@) =~= links_in(elems@, i + 1, k + 1));
            }
        }
        k += 1;
    }
    out
}

/// A document with a second `linklist` container has at least two
/// `linklist` containers.
proof fn lemma_nth_some_count(s: Seq<Elem>, from: int, k: nat)
    requires
        nth_link_list(s, from, k) is Some,
    ensures
        link_list_count_from(s, from) >= k + 1,
    decreases s.len() - from,
{
    if 0 <= from < s.len() {
        if is_link_list(s[from]) {
            if k > 0 {
                lemma_nth_some_count(s, from + 1, (k - 1) as nat);
            }
        } else {
            lemma_nth_some_count(s, from + 1, k);
        }
    }
}

/// A found `linklist` container lies at or after the start of the
/// search, inside the document, and carries the class.
proof fn lemma_nth_in_range(s: Seq<Elem>, from: int, k: nat, i: int)
    requires
        nth_link_list(s, from, k) == Some(i),
    ensures
        from <= i < s.len(),
        is_link_list(s[i]),
    decreases s.len() - from,
{
    if 0 <= from < s.len() {
        if is_link_list(s[from]) {
            if k > 0 {
                lemma_nth_in_range(s, from + 1, (k - 1) as nat, i);
            }
        } else {
            lemma_nth_in_range(s, from + 1, k, i);
        }
    }
}

/// The first `linklist` container precedes the second in document order.
pub proof fn lemma_first_before_second(s: Seq<Elem>, i1: int, i2: int)
    requires
        nth_link_list(s, 0, 0) == Some(i1),
        second_link_list(s) == Some(i2),
    ensures
        0 <= i1 < i2 < s.len(),
        is_link_list(s[i1]),
        is_link_list(s[i2]),
{
    lemma_nth_before_next(s, 0, 0, i1, i2);
    lemma_nth_in_range(s, 0, 0, i1);
    lemma_nth_in_range(s, 0, 1, i2);
}

/// The `k`-th `linklist` container precedes the `k + 1`-th.
proof fn lemma_nth_before_next(s: Seq<Elem>, from: int, k: nat, i: int, j: int)
    requires
        nth_link_list(s, from, k) == Some(i),
        nth_link_list(s, from, k + 1) == Some(j),
    ensures
        i < j,
    decreases s.len() - from,
{
    if 0 <= from < s.len() {
        if is_link_list(s[from]) {
            if k == 0 {
                lemma_nth_in_range(s, from + 1, 0, j);
            } else {
                lemma_nth_before_next(s, from + 1, (k - 1) as nat, i, j);
            }
        } else {
            lemma_nth_before_next(s, from + 1, k, i, j);
        }
    }
}

/// A document with at most one `linklist` container yields no links at
/// all: the scraper extracts only from the second such container.
pub proof fn lemma_few_containers_no_links(s: Seq<Elem>)
    requires
        link_list_count(s) <= 1,
    ensures
        scraped_links(s) == Seq::<Seq<char>>::empty(),
{
    if second_link_list(s) is Some {
        lemma_nth_some_count(s, 0, 1);
    }
}

/// What the extracted anchor indices are: each lies in `[lo, hi)` and
/// satisfies [`extracted_anchor`]; they are strictly increasing, so the
/// extracted links keep document order; and every index of `[lo, hi)` that
/// satisfies [`extracted_anchor`] occurs among them, so an anchor is never
/// dropped.
pub proof fn lemma_anchor_indices_characterization(s: Seq<Elem>, lo: int, hi: int)
    ensures
        forall|j: int|
            0 <= j < anchor_indices(s, lo, hi).len() ==> lo <= #[trigger] anchor_indices(
                s,
                lo,
                hi,
            )[j] < hi,
        forall|j: int|
            0 <= j < anchor_indices(s, lo, hi).len() ==> extracted_anchor(
                s,
                #[trigger] anchor_indices(s, lo, hi)[j],
            ),
        forall|j1: int, j2: int|
            0 <= j1 < j2 < anchor_indices(s, lo, hi).len() ==> #[trigger] anchor_indices(
                s,
                lo,
                hi,
            )[j1] < #[trigger] anchor_indices(s, lo, hi)[j2],
        forall|m: int|
            lo <= m < hi && extracted_anchor(s, m) ==> anchor_indices(s, lo, hi).contains(m),
    decreases hi - lo,
{
    if hi > lo {
        lemma_anchor_indices_characterization(s, lo, hi - 1);
        let prev = anchor_indices(s, lo, hi - 1);
        let cur = anchor_indices(s, lo, hi);
        assert forall|m: int| lo <= m < hi && extracted_anchor(s, m) implies cur.contains(m) by {
            if m == hi - 1 {
                assert(cur[cur.len() - 1] == m);
            } else {
                assert(prev.contains(m));
                let j = choose|j: int| 0 <= j < prev.len() && prev[j] == m;
                assert(cur[j] == m);
            }
        }
    }
}

/// The links of the second `linklist` container, spelled out: link `j` is
/// the upstream base followed by the `href` value of the `j`-th extracted
/// anchor, the anchors lie strictly inside the container's subtree and
/// deeper than the container, and they appear in document order.
pub proof fn lemma_scraped_links_characterization(s: Seq<Elem>, i: int)
    requires
        second_link_list(s) == Some(i),
    ensures
        scraped_links(s) == links_in(s, i + 1, subtree_end(s, i)),
        scraped_links(s).len() == anchor_indices(s, i + 1, subtree_end(s, i)).len(),
        forall|j: int|
            0 <= j < scraped_links(s).len() ==> scraped_links(s)[j] == link_of(
                s,
                anchor_indices(s, i + 1, subtree_end(s, i))[j],
            ),
        forall|j: int|
            0 <= j < scraped_links(s).len() ==> i < #[trigger] anchor_indices(
                s,
                i + 1,
                subtree_end(s, i),
            )[j] < subtree_end(s, i),
        forall|j: int|
            0 <= j < scraped_links(s).len() ==> extracted_anchor(
                s,
                #[trigger] anchor_indices(s, i + 1, subtree_end(s, i))[j],
            ),
        forall|j1: int, j2: int|
            0 <= j1 < j2 < scraped_links(s).len() ==> #[trigger] anchor_indices(
                s,
                i + 1,
                subtree_end(s, i),
            )[j1] < #[trigger] anchor_indices(s, i + 1, subtree_end(s, i))[j2],
        forall|m: int|
            i < m < subtree_end(s, i) && extracted_anchor(s, m) ==> anchor_indices(
                s,
                i + 1,
                subtree_end(s, i),
            ).contains(m),
        forall|j: int|
            0 <= j < scraped_links(s).len() ==> s[#[trigger] anchor_indices(
                s,
                i + 1,
                subtree_end(s, i),
            )[j]].depth > s[i].depth,
{
    lemma_nth_in_range(s, 0, 1, i);
    lemma_anchor_indices_characterization(s, i + 1, subtree_end(s, i));
    lemma_subtree_end_bounds(s, s[i].depth as int, i + 1);
}

/// An anchor without an `href` attribute contributes nothing to the
/// extracted links.
pub proof fn lemma_no_href_no_link(s: Seq<Elem>, lo: int, hi: int, m: int)
    requires
        0 <= m < s.len(),
        attr_value(s[m].attrs@, "href"@) is None,
    ensures
        !anchor_indices(s, lo, hi).contains(m),
{
    lemma_anchor_indices_characterization(s, lo, hi);
    if anchor_indices(s, lo, hi).contains(m) {
        let j = choose|j: int|
            0 <= j < anchor_indices(s, lo, hi).len() && anchor_indices(s, lo, hi)[j] == m;
        assert(extracted_anchor(s, m));
    }
}

/// Anchors of the first `linklist` container never appear among the
/// extracted ones, provided the second container does not sit inside the
/// first: every extracted anchor lies past the end of the first
/// container's subtree.
pub proof fn lemma_first_container_excluded(s: Seq<Elem>, i1: int, i2: int)
    requires
        nth_link_list(s, 0, 0) == Some(i1),
        second_link_list(s) == Some(i2),
        subtree_end(s, i1) <= i2,
    ensures
        forall|j: int|
            0 <= j < anchor_indices(s, i2 + 1, subtree_end(s, i2)).len() ==> subtree_end(s, i1)
                < #[trigger] anchor_indices(s, i2 + 1, subtree_end(s, i2))[j],
{
    lemma_anchor_indices_characterization(s, i2 + 1, subtree_end(s, i2));
}

/// Scrapes a raw HTML document: parses it, extracts the links of the
/// second `linklist` container, and serializes them as the JSON response
/// body.  Always succeeds; a document without two `linklist` containers
/// yields the empty list.
pub fn scrape_replays(body: &str) -> (r: String)
    ensures
        r@ == crate::json::replays_json(scraped_links(crate::dom::doc_elements(body@))),
        crate::json::all_plain(scraped_links(crate::dom::doc_elements(body@))) ==> r@
            == crate::json::replays_json_plain(scraped_links(crate::dom::doc_elements(body@))),
        link_list_count(crate::dom::doc_elements(body@)) <= 1 ==> r@ == "{\"replays\":[]}"@,
{
    let elems = crate::dom::parse_document_elements(body);
    let links = scrape_links(&elems);
    proof {
        assert(string_views(links@).len() == links@.len());
        if link_list_count(elems@) <= 1 {
            lemma_few_containers_no_links(elems@);
        }
    }
    crate::json::replays_json_string(&links)
}

} // verus!

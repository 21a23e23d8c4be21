//! Character-level string helpers: equality of string slices and the
//! whitespace-separated token test that class selectors use.

use vstd::prelude::*;

verus! {

/// Equality of two string slices, decided character by character.
pub fn str_eq(a: &str, b: &str) -> (r: bool)
    ensures
        r == (a@ == b@),
{
    let n = a.unicode_len();
    if n != b.unicode_len() {
        return false;
    }
    let mut i: usize = 0;
    while i < n
        invariant
            n == a@.len(),
            n == b@.len(),
            i <= n,
            forall|j: int| 0 <= j < i ==> a@[j] == b@[j],
        decreases n - i,
    {
        if a.get_char(i) != b.get_char(i) {
            return false;
        }
        i += 1;
    }
    proof {
        assert(a@ =~= b@);
    }
    true
}

/// The whitespace characters that separate class tokens in a `class`
/// attribute value (space, tab, line feed, carriage return, form feed).
pub open spec fn is_selector_space(c: char) -> bool {
    c == ' ' || c == '\t' || c == '\n' || c == '\r' || c == '\x0C'
}

/// Executable counterpart of [`is_selector_space`].
pub fn is_space_char(c: char) -> (r: bool)
    ensures
        r == is_selector_space(c),
{
    c == ' ' || c == '\t' || c == '\n' || c == '\r' || c == '\x0C'
}

/// `t` occurs in `v` as a complete whitespace-delimited token starting at
/// position `i`.
pub open spec fn token_at(v: Seq<char>, t: Seq<char>, i: int) -> bool {
    &&& 0 <= i
    &&& i + t.len() <= v.len()
    &&& v.subrange(i, i + t.len() as int) == t
    &&& (i == 0 || is_selector_space(v[i - 1]))
    &&& (i + t.len() == v.len() || is_selector_space(v[i + t.len()]))
}

/// A `class` attribute with value `v` carries the class `t`: some complete
/// whitespace-delimited token of `v` equals `t`, and `t` is not empty.
pub open spec fn has_class_token(v: Seq<char>, t: Seq<char>) -> bool {
    t.len() > 0 && exists|i: int| token_at(v, t, i)
}

/// Decides [`token_at`] for one candidate position.
fn token_at_exec(v: &str, t: &str, i: usize, n: usize, m: usize) -> (r: bool)
    requires
        n == v@.len(),
        m == t@.len(),
        m > 0,
        i + m <= n,
    ensures
        r == token_at(v@, t@, i as int),
{
    if i > 0 && !is_space_char(v.get_char(i - 1)) {
        return false;
    }
    if i + m < n && !is_space_char(v.get_char(i + m)) {
        return false;
    }
    let mut j: usize = 0;
    while j < m
        invariant
            n == v@.len(),
            m == t@.len(),
            i + m <= n,
            j <= m,
            forall|k: int| 0 <= k < j ==> v@[i + k] == t@[k],
        decreases m - j,
    {
        if v.get_char(i + j) != t.get_char(j) {
            proof {
                assert(v@.subrange(i as int, i + m as int)[j as int] == v@[i + j]);
            }
            return false;
        }
        j += 1;
    }
    proof {
        assert(v@.subrange(i as int, i + m as int) =~= t@);
    }
    true
}

/// Decides whether `v` contains `t` as a complete whitespace-delimited token,
/// the way a class selector matches a `class` attribute value.
pub fn has_token(v: &str, t: &str) -> (r: bool)
    ensures
        r == has_class_token(v@, t@),
{
    let n = v.unicode_len();
    let m = t.unicode_len();
    if m == 0 || m > n {
        return false;
    }
    let mut i: usize = 0;
    while i <= n - m
        invariant
            n == v@.len(),
            m == t@.len(),
            0 < m <= n,
            i <= n - m + 1,
            forall|j: int| 0 <= j < i ==> !token_at(v@, t@, j),
        decreases n - i,
    {
        if token_at_exec(v, t, i, n, m) {
            proof {
                assert(token_at(v@, t@, i as int));
            }
            return true;
        }
        i += 1;
    }
    proof {
        assert forall|j: int| !token_at(v@, t@, j) by {
            if 0 <= j < i {
            } else {
                assert(!(0 <= j && j + t@.len() <= v@.len() && j < i));
            }
        }
    }
    false
}

} // verus!

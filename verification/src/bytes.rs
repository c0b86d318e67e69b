//! Byte-sequence utilities shared by the document updater and the parsers:
//! pattern occurrence, whitespace runs, line boundaries, and trimming.

use vstd::prelude::*;

verus! {

/// ASCII whitespace, as the document grammar tolerates it.
pub open spec fn is_ws(b: u8) -> bool {
    b == 32 || b == 9 || b == 10 || b == 13 || b == 11 || b == 12
}

/// `pat` occurs in `s` starting at index `i`.
pub open spec fn matches_at(s: Seq<u8>, pat: Seq<u8>, i: int) -> bool {
    0 <= i && i + pat.len() <= s.len() && (forall|k: int|
        0 <= k < pat.len() ==> s[i + k] == pat[k])
}

/// First index `>= i` holding a non-whitespace byte, or the length.
pub open spec fn skip_ws_spec(s: Seq<u8>, i: int) -> int
    decreases s.len() - i,
{
    if i < 0 || i >= s.len() {
        i
    } else if is_ws(s[i]) {
        skip_ws_spec(s, i + 1)
    } else {
        i
    }
}

/// First index `>= i` holding a newline, or the length.
pub open spec fn line_end_spec(s: Seq<u8>, i: int) -> int
    decreases s.len() - i,
{
    if i < 0 || i >= s.len() {
        s.len() as int
    } else if s[i] == 10 {
        i
    } else {
        line_end_spec(s, i + 1)
    }
}

/// First occurrence of `pat` at an index `>= i`, if any.
pub open spec fn find_spec(s: Seq<u8>, pat: Seq<u8>, i: int) -> Option<int>
    decreases s.len() - i,
{
    if i < 0 {
        find_spec(s, pat, 0)
    } else if i + pat.len() > s.len() {
        None
    } else if matches_at(s, pat, i) {
        Some(i)
    } else {
        find_spec(s, pat, i + 1)
    }
}

pub proof fn lemma_skip_ws_bounds(s: Seq<u8>, i: int)
    requires
        0 <= i <= s.len(),
    ensures
        i <= skip_ws_spec(s, i) <= s.len(),
        forall|k: int| i <= k < skip_ws_spec(s, i) ==> is_ws(s[k]),
        skip_ws_spec(s, i) < s.len() ==> !is_ws(s[skip_ws_spec(s, i)]),
    decreases s.len() - i,
{
    if i < s.len() && is_ws(s[i]) {
        lemma_skip_ws_bounds(s, i + 1);
    }
}

pub proof fn lemma_line_end_bounds(s: Seq<u8>, i: int)
    requires
        0 <= i <= s.len(),
    ensures
        i <= line_end_spec(s, i) <= s.len(),
        forall|k: int| i <= k < line_end_spec(s, i) ==> s[k] != 10,
        line_end_spec(s, i) < s.len() ==> s[line_end_spec(s, i)] == 10,
    decreases s.len() - i,
{
    if i < s.len() && s[i] != 10 {
        lemma_line_end_bounds(s, i + 1);
    }
}

pub proof fn lemma_find_spec_props(s: Seq<u8>, pat: Seq<u8>, i: int)
    requires
        0 <= i,
    ensures
        match find_spec(s, pat, i) {
            Some(j) => i <= j && matches_at(s, pat, j) && (forall|k: int|
                i <= k < j ==> !matches_at(s, pat, k)),
            None => forall|k: int| i <= k ==> !matches_at(s, pat, k),
        },
    decreases s.len() - i,
{
    if i + pat.len() > s.len() {
        assert forall|k: int| i <= k implies !matches_at(s, pat, k) by {}
    } else if matches_at(s, pat, i) {
    } else {
        lemma_find_spec_props(s, pat, i + 1);
    }
}

/// A match known to sit at `q >= i` forces the search to succeed.
pub proof fn lemma_find_spec_some(s: Seq<u8>, pat: Seq<u8>, i: int, q: int)
    requires
        0 <= i <= q,
        matches_at(s, pat, q),
    ensures
        find_spec(s, pat, i) is Some,
{
    lemma_find_spec_props(s, pat, i);
    if find_spec(s, pat, i) is None {
        assert(!matches_at(s, pat, q));
    }
}

/// Exec mirror of `matches_at`.
pub fn eq_at(s: &Vec<u8>, i: usize, pat: &Vec<u8>) -> (r: bool)
    ensures
        r == matches_at(s@, pat@, i as int),
{
    if i > s.len() || pat.len() > s.len() - i {
        return false;
    }
    let mut k: usize = 0;
    while k < pat.len()
        invariant
            i + pat.len() <= s.len(),
            0 <= k <= pat.len(),
            forall|j: int| 0 <= j < k ==> s@[i + j] == pat@[j],
        decreases pat.len() - k,
    {
        if s[i + k] != pat[k] {
            return false;
        }
        k = k + 1;
    }
    true
}

/// Exec mirror of `skip_ws_spec`.
pub fn skip_ws_at(s: &Vec<u8>, i: usize) -> (r: usize)
    requires
        i <= s.len(),
    ensures
        r == skip_ws_spec(s@, i as int),
{
    let mut j: usize = i;
    while j < s.len() && (s[j] == 32 || s[j] == 9 || s[j] == 10 || s[j] == 13 || s[j] == 11
        || s[j] == 12)
        invariant
            i <= j <= s.len(),
            skip_ws_spec(s@, i as int) == skip_ws_spec(s@, j as int),
        decreases s.len() - j,
    {
        j = j + 1;
    }
    j
}

/// Exec mirror of `line_end_spec`.
pub fn line_end_at(s: &Vec<u8>, i: usize) -> (r: usize)
    requires
        i <= s.len(),
    ensures
        r == line_end_spec(s@, i as int),
{
    let mut j: usize = i;
    while j < s.len() && s[j] != 10
        invariant
            i <= j <= s.len(),
            line_end_spec(s@, i as int) == line_end_spec(s@, j as int),
        decreases s.len() - j,
    {
        j = j + 1;
    }
    j
}

/// Exec mirror of `find_spec`.
pub fn find_from(s: &Vec<u8>, pat: &Vec<u8>, i: usize) -> (r: Option<usize>)
    ensures
        match r {
            Some(j) => Some(j as int) == find_spec(s@, pat@, i as int),
            None => find_spec(s@, pat@, i as int) is None,
        },
{
    let mut j: usize = i;
    loop
        invariant
            i <= j,
            find_spec(s@, pat@, i as int) == find_spec(s@, pat@, j as int),
        decreases s@.len() + pat@.len() - j,
    {
        if j > s.len() || pat.len() > s.len() - j {
            return None;
        }
        if eq_at(s, j, pat) {
            return Some(j);
        }
        j = j + 1;
    }
}

/// Both ends trimmed of ASCII whitespace.
pub open spec fn trim_spec(s: Seq<u8>) -> Seq<u8>
    decreases s.len(),
{
    if s.len() == 0 {
        s
    } else if is_ws(s[0]) {
        trim_spec(s.skip(1))
    } else if is_ws(s[s.len() - 1]) {
        trim_spec(s.take(s.len() - 1))
    } else {
        s
    }
}

/// Exec trim over a byte vector slice `[lo, hi)` of `s`, returning the copy.
pub fn trim_range(s: &Vec<u8>, lo: usize, hi: usize) -> (r: Vec<u8>)
    requires
        lo <= hi <= s.len(),
    ensures
        r@ == trim_spec(s@.subrange(lo as int, hi as int)),
{
    let mut a: usize = lo;
    let mut b: usize = hi;
    while a < b && (s[a] == 32 || s[a] == 9 || s[a] == 10 || s[a] == 13 || s[a] == 11 || s[a]
        == 12)
        invariant
            lo <= a <= b <= hi <= s.len(),
            trim_spec(s@.subrange(lo as int, hi as int)) == trim_spec(
                s@.subrange(a as int, b as int),
            ),
        decreases b - a,
    {
        proof {
            assert(s@.subrange(a as int, b as int).skip(1) =~= s@.subrange(a + 1, b as int));
        }
        a = a + 1;
    }
    while a < b && (s[b - 1] == 32 || s[b - 1] == 9 || s[b - 1] == 10 || s[b - 1] == 13 || s[b
        - 1] == 11 || s[b - 1] == 12)
        invariant
            lo <= a <= b <= hi <= s.len(),
            a < b ==> !is_ws(s@[a as int]),
            trim_spec(s@.subrange(lo as int, hi as int)) == trim_spec(
                s@.subrange(a as int, b as int),
            ),
        decreases b - a,
    {
        proof {
            let sub = s@.subrange(a as int, b as int);
            assert(sub.take(sub.len() - 1) =~= s@.subrange(a as int, b - 1));
        }
        b = b - 1;
    }
    let mut r: Vec<u8> = Vec::new();
    let mut k: usize = a;
    while k < b
        invariant
            a <= k <= b <= s.len(),
            r@ =~= s@.subrange(a as int, k as int),
        decreases b - k,
    {
        r.push(s[k]);
        proof {
            assert(r@ =~= s@.subrange(a as int, k + 1));
        }
        k = k + 1;
    }
    proof {
        let sub = s@.subrange(a as int, b as int);
        if a < b {
            assert(!is_ws(sub[0]));
            assert(!is_ws(sub[sub.len() - 1]));
        }
        assert(trim_spec(sub) == sub);
        assert(r@ =~= sub);
    }
    r
}

/// Copy of the slice `[lo, hi)` of `s`.
pub fn slice_range(s: &Vec<u8>, lo: usize, hi: usize) -> (r: Vec<u8>)
    requires
        lo <= hi <= s.len(),
    ensures
        r@ == s@.subrange(lo as int, hi as int),
{
    let mut r: Vec<u8> = Vec::new();
    let mut k: usize = lo;
    while k < hi
        invariant
            lo <= k <= hi <= s.len(),
            r@ =~= s@.subrange(lo as int, k as int),
        decreases hi - k,
    {
        r.push(s[k]);
        proof {
            assert(r@ =~= s@.subrange(lo as int, k + 1));
        }
        k = k + 1;
    }
    proof {
        assert(r@ =~= s@.subrange(lo as int, hi as int));
    }
    r
}

/// Append `src` to `dst`.
pub fn push_all(dst: &mut Vec<u8>, src: &Vec<u8>)
    ensures
        final(dst)@ == old(dst)@ + src@,
{
    let mut k: usize = 0;
    while k < src.len()
        invariant
            0 <= k <= src.len(),
            dst@ =~= old(dst)@ + src@.subrange(0, k as int),
        decreases src.len() - k,
    {
        dst.push(src[k]);
        proof {
            assert(dst@ =~= old(dst)@ + src@.subrange(0, k + 1));
        }
        k = k + 1;
    }
    proof {
        assert(src@.subrange(0, src@.len() as int) =~= src@);
        assert(dst@ =~= old(dst)@ + src@);
    }
}

/// Free of the bytes that open a heading or a comment marker (`#`, `<`).
pub open spec fn marker_free(s: Seq<u8>) -> bool {
    forall|i: int| 0 <= i < s.len() ==> s[i] != 60 && s[i] != 35
}

/// Marker-freedom is preserved by concatenation.
pub proof fn lemma_marker_free_concat(a: Seq<u8>, b: Seq<u8>)
    requires
        marker_free(a),
        marker_free(b),
    ensures
        marker_free(a + b),
{
    assert forall|i: int| 0 <= i < (a + b).len() implies (a + b)[i] != 60 && (a + b)[i] != 35 by {
        if i < a.len() {
            assert((a + b)[i] == a[i]);
        } else {
            assert((a + b)[i] == b[i - a.len()]);
        }
    }
}

} // verus!

//! The document updater: locates or creates the delimited weather block in a
//! note and replaces it, by an explicit three-case decision whose repeated
//! application is proved idempotent.

use vstd::prelude::*;
use crate::bytes::{
    eq_at, find_from, find_spec, is_ws, lemma_find_spec_props, lemma_find_spec_some,
    lemma_line_end_bounds, lemma_skip_ws_bounds, line_end_at, line_end_spec, matches_at,
    push_all, skip_ws_at, skip_ws_spec, slice_range,
};

verus! {

/// Bytes of '## Weather Forecast'.
pub open spec fn heading_s() -> Seq<u8> {
    seq![35u8, 35, 32, 87, 101, 97, 116, 104, 101, 114, 32, 70, 111, 114, 101, 99, 97, 115, 116]
}

pub fn heading_b() -> (r: Vec<u8>)
    ensures
        r@ == heading_s(),
{
    let r: Vec<u8> = vec![35u8, 35, 32, 87, 101, 97, 116, 104, 101, 114, 32, 70, 111, 114, 101, 99, 97, 115, 116];
    proof {
        assert(r@ =~= heading_s());
    }
    r
}
/// Bytes of '<!-- WEATHER:BEGIN -->'.
pub open spec fn begin_marker_s() -> Seq<u8> {
    seq![60u8, 33, 45, 45, 32, 87, 69, 65, 84, 72, 69, 82, 58, 66, 69, 71, 73, 78, 32, 45, 45, 62]
}

pub fn begin_marker_b() -> (r: Vec<u8>)
    ensures
        r@ == begin_marker_s(),
{
    let r: Vec<u8> = vec![60u8, 33, 45, 45, 32, 87, 69, 65, 84, 72, 69, 82, 58, 66, 69, 71, 73, 78, 32, 45, 45, 62];
    proof {
        assert(r@ =~= begin_marker_s());
    }
    r
}
/// Bytes of '<!-- WEATHER:END -->'.
pub open spec fn end_marker_s() -> Seq<u8> {
    seq![60u8, 33, 45, 45, 32, 87, 69, 65, 84, 72, 69, 82, 58, 69, 78, 68, 32, 45, 45, 62]
}

pub fn end_marker_b() -> (r: Vec<u8>)
    ensures
        r@ == end_marker_s(),
{
    let r: Vec<u8> = vec![60u8, 33, 45, 45, 32, 87, 69, 65, 84, 72, 69, 82, 58, 69, 78, 68, 32, 45, 45, 62];
    proof {
        assert(r@ =~= end_marker_s());
    }
    r
}

/// Bytes of two newlines.
pub open spec fn two_nl_s() -> Seq<u8> {
    seq![10u8, 10]
}

/// Index `i` begins a line of `s`.
pub open spec fn line_start(s: Seq<u8>, i: int) -> bool {
    i == 0 || s[i - 1] == 10
}

/// A heading at a line start, followed across whitespace ending in a newline
/// by a begin marker: the opening of a block region, except that no end
/// marker is demanded yet.
pub open spec fn armed_at(s: Seq<u8>, h: int) -> bool {
    line_start(s, h) && matches_at(s, heading_s(), h) && {
        let p = skip_ws_spec(s, h + 19);
        p > h + 19 && s[p - 1] == 10 && matches_at(s, begin_marker_s(), p)
    }
}

/// A full block region opens at `h`: armed, and an end marker follows.
pub open spec fn region_starts_at(s: Seq<u8>, h: int) -> bool {
    armed_at(s, h) && find_spec(s, end_marker_s(), skip_ws_spec(s, h + 19) + 22) is Some
}

/// Where the region opening at `h` ends: just past the first end marker,
/// absorbing one directly following newline.
pub open spec fn region_end_at(s: Seq<u8>, h: int) -> int {
    let q = find_spec(s, end_marker_s(), skip_ws_spec(s, h + 19) + 22)->Some_0;
    if q + 20 < s.len() && s[q + 20] == 10 {
        q + 21
    } else {
        q + 20
    }
}

/// A bare heading line: the heading at a line start with only non-newline
/// whitespace up to the end of its line.
pub open spec fn heading_line_at(s: Seq<u8>, h: int) -> bool {
    line_start(s, h) && matches_at(s, heading_s(), h) && (forall|k: int|
        h + 19 <= k < line_end_spec(s, h + 19) ==> is_ws(s[k]))
}

/// First index `>= h` where a block region starts, if any.
pub open spec fn first_region(s: Seq<u8>, h: int) -> Option<int>
    decreases s.len() - h,
{
    if h < 0 || h + 19 > s.len() {
        None
    } else if region_starts_at(s, h) {
        Some(h)
    } else {
        first_region(s, h + 1)
    }
}

/// First index `>= h` where a bare heading line starts, if any.
pub open spec fn first_heading(s: Seq<u8>, h: int) -> Option<int>
    decreases s.len() - h,
{
    if h < 0 || h + 19 > s.len() {
        None
    } else if heading_line_at(s, h) {
        Some(h)
    } else {
        first_heading(s, h + 1)
    }
}

pub proof fn lemma_first_region_props(s: Seq<u8>, h: int)
    requires
        0 <= h,
    ensures
        match first_region(s, h) {
            Some(j) => h <= j && region_starts_at(s, j) && (forall|k: int|
                h <= k < j ==> !region_starts_at(s, k)),
            None => forall|k: int| h <= k ==> !region_starts_at(s, k),
        },
    decreases s.len() - h,
{
    if h + 19 > s.len() {
        assert forall|k: int| h <= k implies !region_starts_at(s, k) by {
            assert(!matches_at(s, heading_s(), k));
        }
    } else if region_starts_at(s, h) {
    } else {
        lemma_first_region_props(s, h + 1);
    }
}

pub proof fn lemma_first_heading_props(s: Seq<u8>, h: int)
    requires
        0 <= h,
    ensures
        match first_heading(s, h) {
            Some(j) => h <= j && heading_line_at(s, j) && (forall|k: int|
                h <= k < j ==> !heading_line_at(s, k)),
            None => forall|k: int| h <= k ==> !heading_line_at(s, k),
        },
    decreases s.len() - h,
{
    if h + 19 > s.len() {
        assert forall|k: int| h <= k implies !heading_line_at(s, k) by {
            assert(!matches_at(s, heading_s(), k));
        }
    } else if heading_line_at(s, h) {
    } else {
        lemma_first_heading_props(s, h + 1);
    }
}

/// What one application of the updater produces.
pub open spec fn upsert_spec(s: Seq<u8>, nb: Seq<u8>) -> Seq<u8> {
    match first_region(s, 0) {
        Some(h) => s.take(h) + nb + s.skip(region_end_at(s, h)),
        None => match first_heading(s, 0) {
            Some(h) => s.take(h) + nb + s.skip(line_end_spec(s, h + 19)),
            None => s + two_nl_s() + nb,
        },
    }
}

/// Exec check whether a block region starts at `h`.
fn region_check(s: &Vec<u8>, h: usize) -> (r: bool)
    requires
        h + 19 <= s@.len(),
    ensures
        r == region_starts_at(s@, h as int),
{
    let n = s.len();
    if !(h == 0 || s[h - 1] == 10) {
        return false;
    }
    let hd = heading_b();
    if !eq_at(s, h, &hd) {
        return false;
    }
    let p = skip_ws_at(s, h + 19);
    proof {
        lemma_skip_ws_bounds(s@, h + 19);
    }
    if !(p > h + 19 && s[p - 1] == 10) {
        return false;
    }
    let bm = begin_marker_b();
    if !eq_at(s, p, &bm) {
        return false;
    }
    let em = end_marker_b();
    if p > n - 22 {
        proof {
            lemma_find_spec_props(s@, end_marker_s(), p + 22);
        }
        return false;
    }
    match find_from(s, &em, p + 22) {
        Some(_) => true,
        None => false,
    }
}

/// Exec check whether a bare heading line starts at `h`.
fn heading_line_check(s: &Vec<u8>, h: usize) -> (r: bool)
    requires
        h + 19 <= s@.len(),
    ensures
        r == heading_line_at(s@, h as int),
{
    let n = s.len();
    if !(h == 0 || s[h - 1] == 10) {
        return false;
    }
    let hd = heading_b();
    if !eq_at(s, h, &hd) {
        return false;
    }
    let le = line_end_at(s, h + 19);
    let mut k: usize = h + 19;
    proof {
        lemma_line_end_bounds(s@, h + 19);
    }
    while k < le
        invariant
            h + 19 <= k <= le <= s@.len(),
            le == line_end_spec(s@, h + 19),
            forall|j: int| h + 19 <= j < k ==> is_ws(s@[j]),
        decreases le - k,
    {
        let b = s[k];
        if !(b == 32 || b == 9 || b == 10 || b == 13 || b == 11 || b == 12) {
            return false;
        }
        k = k + 1;
    }
    true
}

/// Exec scan for the first block region.
fn find_first_region(s: &Vec<u8>) -> (r: Option<usize>)
    ensures
        match r {
            Some(h) => Some(h as int) == first_region(s@, 0),
            None => first_region(s@, 0) is None,
        },
{
    if s.len() < 19 {
        return None;
    }
    let n = s.len();
    let mut h: usize = 0;
    while h <= n - 19
        invariant
            n == s@.len(),
            n >= 19,
            0 <= h <= n - 19 + 1,
            first_region(s@, 0) == first_region(s@, h as int),
        decreases s@.len() - h,
    {
        if region_check(s, h) {
            return Some(h);
        }
        h = h + 1;
    }
    None
}

/// Exec scan for the first bare heading line.
fn find_first_heading(s: &Vec<u8>) -> (r: Option<usize>)
    ensures
        match r {
            Some(h) => Some(h as int) == first_heading(s@, 0),
            None => first_heading(s@, 0) is None,
        },
{
    if s.len() < 19 {
        return None;
    }
    let n = s.len();
    let mut h: usize = 0;
    while h <= n - 19
        invariant
            n == s@.len(),
            n >= 19,
            0 <= h <= n - 19 + 1,
            first_heading(s@, 0) == first_heading(s@, h as int),
        decreases s@.len() - h,
    {
        if heading_line_check(s, h) {
            return Some(h);
        }
        h = h + 1;
    }
    None
}

/// Insert or replace the weather block.
///
/// In priority order: replace an existing heading-plus-marker region; else
/// rewrite the bare heading line into the new block; else append the block
/// after two blank lines. The result is exactly `upsert_spec`.
pub fn upsert_weather_block(content: &mut Vec<u8>, new_block: &Vec<u8>)
    ensures
        final(content)@ == upsert_spec(old(content)@, new_block@),
{
    match find_first_region(content) {
        Some(h) => {
            proof {
                lemma_first_region_props(content@, 0);
            }
            let n0 = content.len();
            let p = skip_ws_at(content, h + 19);
            proof {
                lemma_skip_ws_bounds(content@, h + 19);
            }
            let em = end_marker_b();
            let q = match find_from(content, &em, p + 22) {
                Some(q) => q,
                None => {
                    proof {
                        assert(false);
                    }
                    0
                },
            };
            proof {
                lemma_find_spec_props(content@, end_marker_s(), p + 22);
            }
            let e = if q + 20 < content.len() && content[q + 20] == 10 {
                q + 21
            } else {
                q + 20
            };
            let mut out = slice_range(content, 0, h);
            push_all(&mut out, new_block);
            let tail = slice_range(content, e, content.len());
            push_all(&mut out, &tail);
            proof {
                assert(content@.subrange(0, h as int) =~= content@.take(h as int));
                assert(content@.subrange(e as int, content@.len() as int) =~= content@.skip(
                    e as int,
                ));
            }
            *content = out;
        },
        None => {
            match find_first_heading(content) {
                Some(h) => {
                    proof {
                        lemma_first_heading_props(content@, 0);
                    }
                    let n0 = content.len();
                    let e = line_end_at(content, h + 19);
                    proof {
                        lemma_line_end_bounds(content@, h + 19);
                    }
                    let mut out = slice_range(content, 0, h);
                    push_all(&mut out, new_block);
                    let tail = slice_range(content, e, content.len());
                    push_all(&mut out, &tail);
                    proof {
                        assert(content@.subrange(0, h as int) =~= content@.take(h as int));
                        assert(content@.subrange(e as int, content@.len() as int)
                            =~= content@.skip(e as int));
                    }
                    *content = out;
                },
                None => {
                    content.push(10);
                    content.push(10);
                    push_all(content, new_block);
                    proof {
                        assert(content@ =~= old(content)@ + two_nl_s() + new_block@);
                    }
                },
            }
        },
    }
}

/// An occurrence wholly below the boundary of `a + b` is an occurrence in `a`,
/// and conversely.
pub proof fn lemma_embed_left(a: Seq<u8>, b: Seq<u8>, pat: Seq<u8>, i: int)
    requires
        0 <= i,
        i + pat.len() <= a.len(),
    ensures
        matches_at(a + b, pat, i) == matches_at(a, pat, i),
{
    if matches_at(a + b, pat, i) {
        assert forall|k: int| 0 <= k < pat.len() implies a[i + k] == pat[k] by {
            assert((a + b)[i + k] == a[i + k]);
        }
    }
    if matches_at(a, pat, i) {
        assert forall|k: int| 0 <= k < pat.len() implies (a + b)[i + k] == pat[k] by {
            assert((a + b)[i + k] == a[i + k]);
        }
    }
}

/// An occurrence in `b` is an occurrence of `a + b` past the boundary,
/// and conversely.
pub proof fn lemma_embed_right(a: Seq<u8>, b: Seq<u8>, pat: Seq<u8>, j: int)
    requires
        0 <= j,
    ensures
        matches_at(a + b, pat, a.len() + j) == matches_at(b, pat, j),
{
    if matches_at(a + b, pat, a.len() + j) {
        assert forall|k: int| 0 <= k < pat.len() implies b[j + k] == pat[k] by {
            assert((a + b)[a.len() + j + k] == b[j + k]);
        }
    }
    if matches_at(b, pat, j) {
        assert forall|k: int| 0 <= k < pat.len() implies (a + b)[a.len() + j + k] == pat[k] by {
            assert((a + b)[a.len() + j + k] == b[j + k]);
        }
    }
}

/// An occurrence of `a + b` that crosses the boundary pins the bytes of `b`
/// it covers to the corresponding pattern bytes.
pub proof fn lemma_crossing(a: Seq<u8>, b: Seq<u8>, pat: Seq<u8>, i: int)
    requires
        matches_at(a + b, pat, i),
        i < a.len(),
        i + pat.len() > a.len(),
    ensures
        forall|k: int|
            a.len() - i <= k < pat.len() ==> b[i + k - a.len()] == #[trigger] pat[k],
{
    assert forall|k: int|
        a.len() - i <= k < pat.len() implies b[i + k - a.len()] == #[trigger] pat[k] by {
        assert((a + b)[i + k] == pat[k]);
        assert((a + b)[i + k] == b[i + k - a.len()]);
    }
}

/// Whitespace runs agree between two sequences that share a prefix, while
/// they stay below the shared length.
pub proof fn lemma_skip_ws_transfer(u: Seq<u8>, v: Seq<u8>, n: int, i: int)
    requires
        0 <= i <= n,
        n <= u.len(),
        n <= v.len(),
        forall|k: int| 0 <= k < n ==> u[k] == v[k],
        skip_ws_spec(u, i) < n,
    ensures
        skip_ws_spec(v, i) == skip_ws_spec(u, i),
    decreases n - i,
{
    lemma_skip_ws_bounds(u, i);
    assert(i < n);
    if i < u.len() && is_ws(u[i]) {
        lemma_skip_ws_transfer(u, v, n, i + 1);
    }
}

/// The bytes of the heading literal.
pub proof fn lemma_heading_bytes()
    ensures
        heading_s().len() == 19,
        heading_s()[0] == 35,
        heading_s()[1] == 35,
        heading_s()[2] == 32,
        forall|k: int| 0 <= k < 19 ==> #[trigger] heading_s()[k] != 10,
        forall|k: int| 0 <= k < 19 ==> #[trigger] heading_s()[k] != 60,
        forall|k: int| 2 <= k < 19 ==> #[trigger] heading_s()[k] != 35,
{
}

/// The bytes of the begin marker literal.
pub proof fn lemma_begin_bytes()
    ensures
        begin_marker_s().len() == 22,
        begin_marker_s()[0] == 60,
        begin_marker_s()[13] == 66,
        forall|k: int| 0 <= k < 22 ==> #[trigger] begin_marker_s()[k] != 10,
        forall|k: int| 0 <= k < 22 ==> #[trigger] begin_marker_s()[k] != 35,
        forall|k: int| 1 <= k < 22 ==> #[trigger] begin_marker_s()[k] != 60,
{
}

/// The bytes of the end marker literal.
pub proof fn lemma_end_bytes()
    ensures
        end_marker_s().len() == 20,
        end_marker_s()[0] == 60,
        end_marker_s()[13] == 69,
        forall|k: int| 0 <= k < 20 ==> #[trigger] end_marker_s()[k] != 10,
        forall|k: int| 0 <= k < 20 ==> #[trigger] end_marker_s()[k] != 35,
        forall|k: int| 1 <= k < 20 ==> #[trigger] end_marker_s()[k] != 60,
{
}

/// A well-formed replacement block: the heading line, the begin marker, a
/// body, and a final newline-terminated end marker that occurs nowhere else;
/// the heading and begin marker are likewise unique.
pub open spec fn wf_block(nb: Seq<u8>) -> bool {
    nb.len() >= 63 && matches_at(nb, heading_s(), 0) && nb[19] == 10 && matches_at(
        nb,
        begin_marker_s(),
        20,
    ) && matches_at(nb, end_marker_s(), nb.len() - 21) && nb[nb.len() - 1] == 10 && (forall|
        q: int,
    |
        matches_at(nb, end_marker_s(), q) ==> q == nb.len() - 21) && (forall|q: int|
        matches_at(nb, begin_marker_s(), q) ==> q == 20) && (forall|q: int|
        matches_at(nb, heading_s(), q) ==> q == 0)
}

/// An armed heading transfers from a sequence whose tail past `n` is all
/// newlines to any sequence sharing its first `n` bytes.
pub proof fn lemma_armed_transfer(u: Seq<u8>, v: Seq<u8>, n: int, h: int)
    requires
        0 <= n <= u.len(),
        n <= v.len(),
        forall|k: int| 0 <= k < n ==> u[k] == v[k],
        forall|k: int| n <= k < u.len() ==> u[k] == 10,
        armed_at(u, h),
        0 <= h,
    ensures
        armed_at(v, h),
{
    lemma_heading_bytes();
    lemma_begin_bytes();
    assert(u[h] == heading_s()[0]);
    assert(h < n);
    if h + 19 > n {
        assert(u[n] == heading_s()[n - h]);
        assert(false);
    }
    assert forall|k: int| 0 <= k < 19 implies v[h + k] == heading_s()[k] by {
        assert(u[h + k] == heading_s()[k]);
    }
    let p = skip_ws_spec(u, h + 19);
    lemma_skip_ws_bounds(u, h + 19);
    assert(u[p] == begin_marker_s()[0]);
    assert(p < n);
    if p + 22 > n {
        assert(u[n] == begin_marker_s()[n - p]);
        assert(false);
    }
    lemma_skip_ws_transfer(u, v, n, h + 19);
    assert forall|k: int| 0 <= k < 22 implies v[p + k] == begin_marker_s()[k] by {
        assert(u[p + k] == begin_marker_s()[k]);
    }
    assert(v[p - 1] == u[p - 1]);
}

/// An armed heading inside the inserted-block image `av + nb + bv`, sitting
/// strictly before the block, is an armed heading of the prefix alone.
pub proof fn lemma_armed_into_prefix(av: Seq<u8>, nb: Seq<u8>, bv: Seq<u8>, h: int)
    requires
        matches_at(nb, heading_s(), 0),
        armed_at(av + nb + bv, h),
        0 <= h < av.len(),
    ensures
        armed_at(av, h),
{
    lemma_heading_bytes();
    lemma_begin_bytes();
    let r = av + nb + bv;
    let al = av.len() as int;
    assert(r =~= av + (nb + bv));
    assert(nb[0] == 35 && nb[1] == 35);
    assert((nb + bv)[0] == 35 && (nb + bv)[1] == 35);
    if h + 19 > al {
        lemma_crossing(av, nb + bv, heading_s(), h);
        assert((nb + bv)[0] == heading_s()[al - h]);
        assert(al - h == 1);
        assert((nb + bv)[1] == heading_s()[al - h + 1]);
        assert(false);
    }
    lemma_embed_left(av, nb + bv, heading_s(), h);
    let p = skip_ws_spec(r, h + 19);
    lemma_skip_ws_bounds(r, h + 19);
    assert(r[p] == begin_marker_s()[0]);
    if p > al {
        assert(is_ws(r[al]));
        assert(r[al] == (nb + bv)[0]);
        assert(false);
    }
    if p == al {
        assert(r[al] == (nb + bv)[0]);
        assert(false);
    }
    if p + 22 > al {
        lemma_crossing(av, nb + bv, begin_marker_s(), p);
        assert((nb + bv)[0] == begin_marker_s()[al - p]);
        assert(false);
    }
    lemma_embed_left(av, nb + bv, begin_marker_s(), p);
    lemma_skip_ws_transfer(r, av, al, h + 19);
    assert(av[p - 1] == r[p - 1]);
}

/// An armed heading is in particular a bare heading line.
pub proof fn lemma_armed_heading_line(s: Seq<u8>, h: int)
    requires
        armed_at(s, h),
        0 <= h,
    ensures
        heading_line_at(s, h),
{
    let p = skip_ws_spec(s, h + 19);
    lemma_skip_ws_bounds(s, h + 19);
    lemma_line_end_bounds(s, h + 19);
    let le = line_end_spec(s, h + 19);
    if le > p - 1 {
        assert(s[p - 1] != 10);
        assert(false);
    }
    assert forall|k: int| h + 19 <= k < le implies is_ws(s[k]) by {
        assert(k < p);
    }
}

/// Inserting a well-formed block after a clean prefix makes that block the
/// first region of the result, ending exactly at its own end.
pub proof fn lemma_insert_first_region(av: Seq<u8>, nb: Seq<u8>, bv: Seq<u8>)
    requires
        wf_block(nb),
        av.len() == 0 || av[av.len() - 1] == 10,
        forall|h: int| 0 <= h < av.len() ==> !armed_at(av, h),
    ensures
        first_region(av + nb + bv, 0) == Some(av.len() as int),
        region_end_at(av + nb + bv, av.len() as int) == av.len() + nb.len() as int,
{
    lemma_heading_bytes();
    lemma_begin_bytes();
    lemma_end_bytes();
    let r = av + nb + bv;
    let al = av.len() as int;
    let nl = nb.len() as int;
    assert(r =~= av + (nb + bv));
    assert(r =~= (av + nb) + bv);

    // The inserted block is a region at `al`.
    lemma_embed_left(nb, bv, heading_s(), 0);
    lemma_embed_right(av, nb + bv, heading_s(), 0);
    assert(matches_at(r, heading_s(), al));
    assert(r[al + 19] == (nb + bv)[19]);
    assert(r[al + 19] == 10);
    assert(r[al + 20] == (nb + bv)[20]);
    assert(r[al + 20] == begin_marker_s()[0]);
    assert(r[al + 20] == 60);
    assert(skip_ws_spec(r, al + 20) == al + 20);
    assert(skip_ws_spec(r, al + 19) == al + 20);
    lemma_embed_left(nb, bv, begin_marker_s(), 20);
    lemma_embed_right(av, nb + bv, begin_marker_s(), 20);
    assert(matches_at(r, begin_marker_s(), al + 20));
    lemma_embed_left(nb, bv, end_marker_s(), nl - 21);
    lemma_embed_right(av, nb + bv, end_marker_s(), nl - 21);
    assert(matches_at(r, end_marker_s(), al + nl - 21));
    lemma_find_spec_some(r, end_marker_s(), al + 42, al + nl - 21);
    assert(region_starts_at(r, al));

    // The first end marker after the begin marker is the block's own.
    lemma_find_spec_props(r, end_marker_s(), al + 42);
    let q = find_spec(r, end_marker_s(), al + 42)->Some_0;
    assert(q <= al + nl - 21);
    if q < al + nl - 21 {
        assert(matches_at(r, end_marker_s(), q));
        if q + 20 <= al + nl {
            lemma_embed_left(av + nb, bv, end_marker_s(), q);
            assert(matches_at(av + nb, end_marker_s(), q));
            lemma_embed_right(av, nb, end_marker_s(), q - al);
            assert(matches_at(nb, end_marker_s(), q - al));
            assert(false);
        }
        assert(false);
    }
    assert(q == al + nl - 21);
    assert(q + 20 == al + nl - 1 < r.len());
    assert(r[al + nl - 1] == (nb + bv)[nl - 1]);
    assert(r[al + nl - 1] == 10);
    assert(region_end_at(r, al) == al + nl);

    // No region starts before the block.
    assert forall|h: int| 0 <= h < al implies !region_starts_at(r, h) by {
        if region_starts_at(r, h) {
            lemma_armed_into_prefix(av, nb, bv, h);
        }
    }
    lemma_first_region_props(r, 0);
    match first_region(r, 0) {
        Some(j) => {
            if j < al {
                assert(false);
            }
            if j > al {
                assert(!region_starts_at(r, al));
                assert(false);
            }
        },
        None => {
            assert(!region_starts_at(r, al));
            assert(false);
        },
    }
}

/// Applying the updater twice with one well-formed block is idempotent: the
/// second application replaces the block it just wrote, byte for byte.
pub proof fn lemma_upsert_idempotent(s: Seq<u8>, nb: Seq<u8>)
    requires
        wf_block(nb),
    ensures
        upsert_spec(upsert_spec(s, nb), nb) == upsert_spec(s, nb),
{
    lemma_first_region_props(s, 0);
    lemma_first_heading_props(s, 0);
    match first_region(s, 0) {
        Some(h) => {
            let p = skip_ws_spec(s, h + 19);
            lemma_skip_ws_bounds(s, h + 19);
            lemma_find_spec_props(s, end_marker_s(), p + 22);
            let q = find_spec(s, end_marker_s(), p + 22)->Some_0;
            let e = region_end_at(s, h);
            assert(q + 20 <= s.len());
            assert(0 <= e <= s.len());
            let av = s.take(h);
            let bv = s.skip(e);
            assert forall|hp: int| 0 <= hp < av.len() implies !armed_at(av, hp) by {
                if armed_at(av, hp) {
                    lemma_armed_transfer(av, s, h as int, hp);
                    let pp = skip_ws_spec(s, hp + 19);
                    lemma_skip_ws_bounds(av, hp + 19);
                    lemma_skip_ws_transfer(av, s, h as int, hp + 19);
                    assert(matches_at(av, begin_marker_s(), skip_ws_spec(av, hp + 19)));
                    assert(pp + 22 <= h);
                    assert(matches_at(s, end_marker_s(), q));
                    lemma_find_spec_some(s, end_marker_s(), pp + 22, q);
                    assert(region_starts_at(s, hp));
                    assert(false);
                }
            }
            lemma_insert_first_region(av, nb, bv);
            let r = av + nb + bv;
            assert(upsert_spec(s, nb) == r);
            assert(first_region(r, 0) == Some(av.len() as int));
            assert(upsert_spec(r, nb) == r.take(av.len() as int) + nb + r.skip(
                av.len() + nb.len() as int,
            ));
            assert(r.take(av.len() as int) =~= av);
            assert(r.skip(av.len() + nb.len() as int) =~= bv);
            assert(upsert_spec(r, nb) == r);
        },
        None => {
            match first_heading(s, 0) {
                Some(h) => {
                    lemma_line_end_bounds(s, h + 19);
                    let e = line_end_spec(s, h + 19);
                    let av = s.take(h);
                    let bv = s.skip(e);
                    assert forall|hp: int| 0 <= hp < av.len() implies !armed_at(av, hp) by {
                        if armed_at(av, hp) {
                            lemma_armed_transfer(av, s, h as int, hp);
                            lemma_armed_heading_line(s, hp);
                            assert(false);
                        }
                    }
                    lemma_insert_first_region(av, nb, bv);
                    let r = av + nb + bv;
                    assert(upsert_spec(s, nb) == r);
                    assert(upsert_spec(r, nb) == r.take(av.len() as int) + nb + r.skip(
                        av.len() + nb.len() as int,
                    ));
                    assert(r.take(av.len() as int) =~= av);
                    assert(r.skip(av.len() + nb.len() as int) =~= bv);
                    assert(upsert_spec(r, nb) == r);
                },
                None => {
                    let av = s + two_nl_s();
                    let bv = Seq::<u8>::empty();
                    assert(av[av.len() - 1] == 10);
                    assert forall|hp: int| 0 <= hp < av.len() implies !armed_at(av, hp) by {
                        if armed_at(av, hp) {
                            assert(forall|k: int|
                                s.len() <= k < av.len() ==> av[k] == 10);
                            lemma_armed_transfer(av, s, s.len() as int, hp);
                            lemma_armed_heading_line(s, hp);
                            assert(false);
                        }
                    }
                    lemma_insert_first_region(av, nb, bv);
                    let r = av + nb + bv;
                    assert(r =~= s + two_nl_s() + nb);
                    assert(upsert_spec(s, nb) == r);
                    assert(upsert_spec(r, nb) == r.take(av.len() as int) + nb + r.skip(
                        av.len() + nb.len() as int,
                    ));
                    assert(r.take(av.len() as int) =~= av);
                    assert(r.skip(av.len() + nb.len() as int) =~= bv);
                    assert(upsert_spec(r, nb) == r);
                },
            }
        },
    }
}

/// With no heading anywhere in the document, the updater appends two blank
/// lines and the block, leaving all pre-existing content in place.
pub proof fn lemma_upsert_appends(s: Seq<u8>, nb: Seq<u8>)
    requires
        forall|q: int| !matches_at(s, heading_s(), q),
    ensures
        upsert_spec(s, nb) == s + two_nl_s() + nb,
        forall|k: int| 0 <= k < s.len() ==> upsert_spec(s, nb)[k] == s[k],
{
    lemma_first_region_props(s, 0);
    lemma_first_heading_props(s, 0);
    if first_region(s, 0) is Some {
        let h = first_region(s, 0)->Some_0;
        assert(matches_at(s, heading_s(), h));
        assert(false);
    }
    if first_heading(s, 0) is Some {
        let h = first_heading(s, 0)->Some_0;
        assert(matches_at(s, heading_s(), h));
        assert(false);
    }
    assert forall|k: int| 0 <= k < s.len() implies upsert_spec(s, nb)[k] == s[k] by {
        assert((s + two_nl_s() + nb)[k] == s[k]);
    }
}

/// Bytes of '\n**'.
pub open spec fn lit_body_open_s() -> Seq<u8> {
    seq![10u8, 42, 42]
}

pub fn lit_body_open_b() -> (r: Vec<u8>)
    ensures
        r@ == lit_body_open_s(),
{
    let r: Vec<u8> = vec![10u8, 42, 42];
    proof {
        assert(r@ =~= lit_body_open_s());
    }
    r
}

pub proof fn lit_body_open_mf()
    ensures
        crate::bytes::marker_free(lit_body_open_s()),
{
    assert forall|i: int| 0 <= i < lit_body_open_s().len() implies lit_body_open_s()[i] != 60 && lit_body_open_s()[i]
        != 35 by {}
}
/// Bytes of '**  \n**Range**: '.
pub open spec fn lit_body_range_s() -> Seq<u8> {
    seq![42u8, 42, 32, 32, 10, 42, 42, 82, 97, 110, 103, 101, 42, 42, 58, 32]
}

pub fn lit_body_range_b() -> (r: Vec<u8>)
    ensures
        r@ == lit_body_range_s(),
{
    let r: Vec<u8> = vec![42u8, 42, 32, 32, 10, 42, 42, 82, 97, 110, 103, 101, 42, 42, 58, 32];
    proof {
        assert(r@ =~= lit_body_range_s());
    }
    r
}

pub proof fn lit_body_range_mf()
    ensures
        crate::bytes::marker_free(lit_body_range_s()),
{
    assert forall|i: int| 0 <= i < lit_body_range_s().len() implies lit_body_range_s()[i] != 60 && lit_body_range_s()[i]
        != 35 by {}
}
/// Bytes of ' / '.
pub open spec fn lit_body_slash_s() -> Seq<u8> {
    seq![32u8, 47, 32]
}

pub fn lit_body_slash_b() -> (r: Vec<u8>)
    ensures
        r@ == lit_body_slash_s(),
{
    let r: Vec<u8> = vec![32u8, 47, 32];
    proof {
        assert(r@ =~= lit_body_slash_s());
    }
    r
}

pub proof fn lit_body_slash_mf()
    ensures
        crate::bytes::marker_free(lit_body_slash_s()),
{
    assert forall|i: int| 0 <= i < lit_body_slash_s().len() implies lit_body_slash_s()[i] != 60 && lit_body_slash_s()[i]
        != 35 by {}
}
/// Bytes of '  \n\n'.
pub open spec fn lit_body_gap_s() -> Seq<u8> {
    seq![32u8, 32, 10, 10]
}

pub fn lit_body_gap_b() -> (r: Vec<u8>)
    ensures
        r@ == lit_body_gap_s(),
{
    let r: Vec<u8> = vec![32u8, 32, 10, 10];
    proof {
        assert(r@ =~= lit_body_gap_s());
    }
    r
}

pub proof fn lit_body_gap_mf()
    ensures
        crate::bytes::marker_free(lit_body_gap_s()),
{
    assert forall|i: int| 0 <= i < lit_body_gap_s().len() implies lit_body_gap_s()[i] != 60 && lit_body_gap_s()[i]
        != 35 by {}
}
/// Bytes of '\n\n'.
pub open spec fn lit_body_sep_s() -> Seq<u8> {
    seq![10u8, 10]
}

pub fn lit_body_sep_b() -> (r: Vec<u8>)
    ensures
        r@ == lit_body_sep_s(),
{
    let r: Vec<u8> = vec![10u8, 10];
    proof {
        assert(r@ =~= lit_body_sep_s());
    }
    r
}

pub proof fn lit_body_sep_mf()
    ensures
        crate::bytes::marker_free(lit_body_sep_s()),
{
    assert forall|i: int| 0 <= i < lit_body_sep_s().len() implies lit_body_sep_s()[i] != 60 && lit_body_sep_s()[i]
        != 35 by {}
}

/// Bytes of one newline.
pub open spec fn one_nl_s() -> Seq<u8> {
    seq![10u8]
}

/// The body placed between the markers: label line, range line, note, table.
pub open spec fn block_mid_s(
    label: Seq<u8>,
    maxl: Seq<u8>,
    minl: Seq<u8>,
    note: Seq<u8>,
    table: Seq<u8>,
) -> Seq<u8> {
    lit_body_open_s() + label + lit_body_range_s() + maxl + lit_body_slash_s() + minl
        + lit_body_gap_s() + note + lit_body_sep_s() + table + one_nl_s()
}

/// The fully rendered replacement block.
pub open spec fn block_spec(
    label: Seq<u8>,
    maxl: Seq<u8>,
    minl: Seq<u8>,
    note: Seq<u8>,
    table: Seq<u8>,
) -> Seq<u8> {
    heading_s() + one_nl_s() + begin_marker_s() + block_mid_s(label, maxl, minl, note, table)
        + end_marker_s() + one_nl_s()
}

/// Heading and comment openers occur in the block only where the markers
/// themselves sit.
pub open spec fn block_tight(nb: Seq<u8>) -> bool {
    (forall|k: int| 0 <= k < nb.len() && #[trigger] nb[k] == 60 ==> k == 20 || k == nb.len() - 21)
        && (forall|k: int| 0 <= k < nb.len() && #[trigger] nb[k] == 35 ==> k <= 1)
}

/// Render the full weather block from its parts.
pub fn build_weather_block(
    label: &Vec<u8>,
    maxl: &Vec<u8>,
    minl: &Vec<u8>,
    note: &Vec<u8>,
    table: &Vec<u8>,
) -> (r: Vec<u8>)
    ensures
        r@ == block_spec(label@, maxl@, minl@, note@, table@),
{
    let mut r = heading_b();
    r.push(10);
    let bm = begin_marker_b();
    push_all(&mut r, &bm);
    let b1 = lit_body_open_b();
    push_all(&mut r, &b1);
    push_all(&mut r, label);
    let b2 = lit_body_range_b();
    push_all(&mut r, &b2);
    push_all(&mut r, maxl);
    let b3 = lit_body_slash_b();
    push_all(&mut r, &b3);
    push_all(&mut r, minl);
    let b4 = lit_body_gap_b();
    push_all(&mut r, &b4);
    push_all(&mut r, note);
    let b5 = lit_body_sep_b();
    push_all(&mut r, &b5);
    push_all(&mut r, table);
    r.push(10);
    let em = end_marker_b();
    push_all(&mut r, &em);
    r.push(10);
    proof {
        assert(r@ =~= block_spec(label@, maxl@, minl@, note@, table@));
    }
    r
}

/// A block built from marker-free parts is well formed and tight.
pub proof fn lemma_block_wf(
    label: Seq<u8>,
    maxl: Seq<u8>,
    minl: Seq<u8>,
    note: Seq<u8>,
    table: Seq<u8>,
)
    requires
        crate::bytes::marker_free(label),
        crate::bytes::marker_free(maxl),
        crate::bytes::marker_free(minl),
        crate::bytes::marker_free(note),
        crate::bytes::marker_free(table),
    ensures
        wf_block(block_spec(label, maxl, minl, note, table)),
        block_tight(block_spec(label, maxl, minl, note, table)),
{
    lemma_heading_bytes();
    lemma_begin_bytes();
    lemma_end_bytes();
    let mid = block_mid_s(label, maxl, minl, note, table);
    assert(crate::bytes::marker_free(mid)) by {
        lit_body_open_mf();
        lit_body_range_mf();
        lit_body_slash_mf();
        lit_body_gap_mf();
        lit_body_sep_mf();
        assert(crate::bytes::marker_free(one_nl_s())) by {
            assert(one_nl_s()[0] == 10);
        }
        crate::bytes::lemma_marker_free_concat(lit_body_open_s(), label);
        crate::bytes::lemma_marker_free_concat(lit_body_open_s() + label, lit_body_range_s());
        crate::bytes::lemma_marker_free_concat(
            lit_body_open_s() + label + lit_body_range_s(),
            maxl,
        );
        crate::bytes::lemma_marker_free_concat(
            lit_body_open_s() + label + lit_body_range_s() + maxl,
            lit_body_slash_s(),
        );
        crate::bytes::lemma_marker_free_concat(
            lit_body_open_s() + label + lit_body_range_s() + maxl + lit_body_slash_s(),
            minl,
        );
        crate::bytes::lemma_marker_free_concat(
            lit_body_open_s() + label + lit_body_range_s() + maxl + lit_body_slash_s() + minl,
            lit_body_gap_s(),
        );
        crate::bytes::lemma_marker_free_concat(
            lit_body_open_s() + label + lit_body_range_s() + maxl + lit_body_slash_s() + minl
                + lit_body_gap_s(),
            note,
        );
        crate::bytes::lemma_marker_free_concat(
            lit_body_open_s() + label + lit_body_range_s() + maxl + lit_body_slash_s() + minl
                + lit_body_gap_s() + note,
            lit_body_sep_s(),
        );
        crate::bytes::lemma_marker_free_concat(
            lit_body_open_s() + label + lit_body_range_s() + maxl + lit_body_slash_s() + minl
                + lit_body_gap_s() + note + lit_body_sep_s(),
            table,
        );
        crate::bytes::lemma_marker_free_concat(
            lit_body_open_s() + label + lit_body_range_s() + maxl + lit_body_slash_s() + minl
                + lit_body_gap_s() + note + lit_body_sep_s() + table,
            one_nl_s(),
        );
    }
    let nb = block_spec(label, maxl, minl, note, table);
    let ml = mid.len() as int;
    let nl = nb.len() as int;
    assert(nl == 42 + ml + 21);
    assert forall|k: int| 0 <= k < 19 implies nb[k] == heading_s()[k] by {}
    assert(nb[19] == 10);
    assert forall|k: int| 0 <= k < 22 implies nb[20 + k] == begin_marker_s()[k] by {}
    assert forall|k: int| 0 <= k < ml implies nb[42 + k] == mid[k] by {}
    assert forall|k: int| 0 <= k < 20 implies nb[nl - 21 + k] == end_marker_s()[k] by {}
    assert(nb[nl - 1] == 10);
    assert(matches_at(nb, heading_s(), 0));
    assert(matches_at(nb, begin_marker_s(), 20));
    assert(matches_at(nb, end_marker_s(), nl - 21));
    assert(block_tight(nb)) by {
        assert forall|k: int|
            0 <= k < nl && #[trigger] nb[k] == 60 implies k == 20 || k == nl - 21 by {
            if k < 19 {
                assert(nb[k] == heading_s()[k]);
            } else if k == 19 {
            } else if k < 42 {
                assert(nb[k] == begin_marker_s()[k - 20]);
            } else if k < 42 + ml {
                assert(nb[k] == mid[k - 42]);
            } else if k < nl - 1 {
                assert(nb[k] == end_marker_s()[k - (nl - 21)]);
            } else {
            }
        }
        assert forall|k: int| 0 <= k < nl && #[trigger] nb[k] == 35 implies k <= 1 by {
            if k < 19 {
                assert(nb[k] == heading_s()[k]);
            } else if k == 19 {
            } else if k < 42 {
                assert(nb[k] == begin_marker_s()[k - 20]);
            } else if k < 42 + ml {
                assert(nb[k] == mid[k - 42]);
            } else if k < nl - 1 {
                assert(nb[k] == end_marker_s()[k - (nl - 21)]);
            } else {
            }
        }
    }
    assert forall|q: int| matches_at(nb, end_marker_s(), q) implies q == nl - 21 by {
        assert(nb[q] == end_marker_s()[0]);
        assert(q == 20 || q == nl - 21);
        if q == 20 {
            assert(nb[33] == end_marker_s()[13]);
            assert(nb[33] == begin_marker_s()[13]);
            assert(false);
        }
    }
    assert forall|q: int| matches_at(nb, begin_marker_s(), q) implies q == 20 by {
        assert(nb[q] == begin_marker_s()[0]);
        assert(q == 20 || q == nl - 21);
        if q == nl - 21 {
            assert(q + 22 <= nl);
            assert(false);
        }
    }
    assert forall|q: int| matches_at(nb, heading_s(), q) implies q == 0 by {
        assert(nb[q] == heading_s()[0]);
        assert(q <= 1);
        if q == 1 {
            assert(nb[2] == heading_s()[1]);
            assert(nb[2] == heading_s()[2]);
            assert(false);
        }
    }
}

/// On a document holding one bare heading and no markers, the updater
/// replaces that heading line and the result holds exactly one begin marker,
/// exactly one end marker, and exactly one heading.
pub proof fn lemma_upsert_bare_heading(s: Seq<u8>, nb: Seq<u8>, h: int)
    requires
        wf_block(nb),
        block_tight(nb),
        heading_line_at(s, h),
        0 <= h,
        forall|q: int| q != h ==> !matches_at(s, heading_s(), q),
        forall|q: int| !matches_at(s, begin_marker_s(), q),
        forall|q: int| !matches_at(s, end_marker_s(), q),
    ensures
        upsert_spec(s, nb) == s.take(h) + nb + s.skip(line_end_spec(s, h + 19)),
        forall|q: int|
            matches_at(upsert_spec(s, nb), heading_s(), q) <==> q == h,
        forall|q: int|
            matches_at(upsert_spec(s, nb), begin_marker_s(), q) <==> q == h + 20,
        forall|q: int|
            matches_at(upsert_spec(s, nb), end_marker_s(), q) <==> q == h + nb.len() - 21,
{
    lemma_heading_bytes();
    lemma_begin_bytes();
    lemma_end_bytes();
    lemma_first_region_props(s, 0);
    lemma_first_heading_props(s, 0);
    if first_region(s, 0) is Some {
        let j = first_region(s, 0)->Some_0;
        assert(matches_at(s, begin_marker_s(), skip_ws_spec(s, j + 19)));
        assert(false);
    }
    match first_heading(s, 0) {
        Some(j) => {
            assert(matches_at(s, heading_s(), j));
            assert(j == h);
        },
        None => {
            assert(!heading_line_at(s, h));
            assert(false);
        },
    }
    lemma_line_end_bounds(s, h + 19);
    let e = line_end_spec(s, h + 19);
    let av = s.take(h);
    let bv = s.skip(e);
    let r = av + nb + bv;
    let al = av.len() as int;
    let nl = nb.len() as int;
    assert(al == h);
    assert(upsert_spec(s, nb) == r);
    assert(r =~= av + (nb + bv));
    assert(r =~= (av + nb) + bv);

    // The block's own occurrences are present.
    lemma_embed_left(nb, bv, heading_s(), 0);
    lemma_embed_right(av, nb + bv, heading_s(), 0);
    assert(matches_at(r, heading_s(), h));
    lemma_embed_left(nb, bv, begin_marker_s(), 20);
    lemma_embed_right(av, nb + bv, begin_marker_s(), 20);
    assert(matches_at(r, begin_marker_s(), h + 20));
    lemma_embed_left(nb, bv, end_marker_s(), nl - 21);
    lemma_embed_right(av, nb + bv, end_marker_s(), nl - 21);
    assert(matches_at(r, end_marker_s(), h + nl - 21));

    // No other occurrence of any of the three patterns.
    assert forall|q: int|
        matches_at(r, heading_s(), q) implies q == h by {
        lemma_occ_positions(av, nb, bv, s, h, e, heading_s(), q);
    }
    assert forall|q: int|
        matches_at(r, begin_marker_s(), q) implies q == h + 20 by {
        lemma_occ_positions(av, nb, bv, s, h, e, begin_marker_s(), q);
        assert(q - al == 20);
    }
    assert forall|q: int|
        matches_at(r, end_marker_s(), q) implies q == h + nl - 21 by {
        lemma_occ_positions(av, nb, bv, s, h, e, end_marker_s(), q);
        assert(q - al == nl - 21);
    }
}

/// Any occurrence of a marker pattern in `s.take(h) + nb + s.skip(e)` lies
/// inside `nb`, provided `s` itself holds the pattern at most at `h` (for the
/// heading) and nowhere (for the markers).
proof fn lemma_occ_positions(
    av: Seq<u8>,
    nb: Seq<u8>,
    bv: Seq<u8>,
    s: Seq<u8>,
    h: int,
    e: int,
    pat: Seq<u8>,
    q: int,
)
    requires
        wf_block(nb),
        block_tight(nb),
        av == s.take(h),
        bv == s.skip(e),
        0 <= h <= e <= s.len(),
        e >= h + 19,
        pat == heading_s() || pat == begin_marker_s() || pat == end_marker_s(),
        pat == heading_s() ==> forall|j: int| j != h ==> !matches_at(s, pat, j),
        pat != heading_s() ==> forall|j: int| !matches_at(s, pat, j),
        matches_at(av + nb + bv, pat, q),
    ensures
        av.len() <= q,
        q + pat.len() <= av.len() + nb.len(),
        matches_at(nb, pat, q - av.len()),
{
    lemma_heading_bytes();
    lemma_begin_bytes();
    lemma_end_bytes();
    let r = av + nb + bv;
    let al = av.len() as int;
    let nl = nb.len() as int;
    assert(r =~= av + (nb + bv));
    assert(r =~= (av + nb) + bv);
    assert(nb[0] == 35 && nb[1] == 35);
    assert(pat.len() < 63);
    if q + pat.len() <= al {
        lemma_embed_left(av, nb + bv, pat, q);
        assert forall|k: int| 0 <= k < pat.len() implies s[q + k] == pat[k] by {
            assert(av[q + k] == pat[k]);
        }
        assert(matches_at(s, pat, q));
        assert(q + pat.len() <= h);
        assert(false);
    } else if q < al {
        lemma_crossing(av, nb + bv, pat, q);
        assert((nb + bv)[0] == pat[al - q]);
        assert(pat[al - q] == 35);
        if pat == heading_s() {
            assert(al - q == 1);
            assert((nb + bv)[1] == pat[al - q + 1]);
            assert(false);
        }
        assert(false);
    } else if q + pat.len() <= al + nl {
        lemma_embed_left(av + nb, bv, pat, q);
        lemma_embed_right(av, nb, pat, q - al);
    } else if q < al + nl {
        assert(r[q] == (nb + bv)[q - al]);
        assert(r[q] == nb[q - al]);
        assert(nb[q - al] == pat[0]);
        if pat == heading_s() {
            assert(nb[q - al] == 35);
            assert(q - al <= 1);
            assert(q + 19 <= al + nl);
            assert(false);
        } else {
            assert(nb[q - al] == 60);
            assert(q - al == 20 || q - al == nl - 21);
            if q - al == 20 {
                assert(q + pat.len() <= al + 42);
                assert(false);
            }
            assert(q - al == nl - 21);
            if pat == end_marker_s() {
                assert(q + 20 <= al + nl);
                assert(false);
            }
            assert(pat == begin_marker_s());
            assert(r[q + 13] == (nb + bv)[q + 13 - al]);
            assert(r[q + 13] == nb[nl - 21 + 13]);
            assert(nb[nl - 8] == end_marker_s()[13]);
            assert(r[q + 13] == pat[13]);
            assert(false);
        }
    } else {
        assert(al + nl <= q);
        lemma_embed_right(av + nb, bv, pat, q - al - nl);
        assert(matches_at(bv, pat, q - al - nl));
        assert forall|k: int| 0 <= k < pat.len() implies s[e + q - al - nl + k] == pat[k] by {
            assert(bv[q - al - nl + k] == pat[k]);
        }
        assert(matches_at(s, pat, e + q - al - nl));
        if pat == heading_s() {
            assert(e + q - al - nl == h);
            assert(false);
        }
        assert(false);
    }
}

/// The rendered block the pipeline writes for a label and day sequence.
pub open spec fn weather_block_spec(label: Seq<u8>, days: Seq<crate::temps::DayTemp>) -> Seq<
    u8,
> {
    block_spec(
        label,
        crate::aggregate::summary_max_spec(days),
        crate::aggregate::summary_min_spec(days),
        crate::aggregate::summary_note_spec(days),
        crate::aggregate::table_spec(days),
    )
}

/// A weather block built from a marker-free label and dated days is well
/// formed and tight.
pub proof fn lemma_weather_block_wf(label: Seq<u8>, days: Seq<crate::temps::DayTemp>)
    requires
        crate::bytes::marker_free(label),
        crate::aggregate::days_dated(days),
    ensures
        wf_block(weather_block_spec(label, days)),
        block_tight(weather_block_spec(label, days)),
{
    crate::aggregate::lemma_summary_marker_free(days);
    crate::aggregate::lemma_table_marker_free(days);
    lemma_block_wf(
        label,
        crate::aggregate::summary_max_spec(days),
        crate::aggregate::summary_min_spec(days),
        crate::aggregate::summary_note_spec(days),
        crate::aggregate::table_spec(days),
    );
}

/// One run of the pipeline's write step is a fixed point of the next run.
pub proof fn lemma_weather_update_idempotent(
    content: Seq<u8>,
    label: Seq<u8>,
    days: Seq<crate::temps::DayTemp>,
)
    requires
        crate::bytes::marker_free(label),
        crate::aggregate::days_dated(days),
    ensures
        upsert_spec(
            upsert_spec(content, weather_block_spec(label, days)),
            weather_block_spec(label, days),
        ) == upsert_spec(content, weather_block_spec(label, days)),
{
    lemma_weather_block_wf(label, days);
    lemma_upsert_idempotent(content, weather_block_spec(label, days));
}

/// Summarize the fetched days, render the table, build the block, and
/// rewrite the note in place.
pub fn apply_weather(
    content: &mut Vec<u8>,
    label: &Vec<u8>,
    temps: &Vec<crate::temps::DayTemp>,
)
    requires
        crate::aggregate::days_bounded(temps@),
        crate::aggregate::days_dated(temps@),
    ensures
        final(content)@ == upsert_spec(old(content)@, weather_block_spec(label@, temps@)),
{
    let su = crate::aggregate::summarize(temps);
    let tb = crate::aggregate::render_table(temps);
    let nb = build_weather_block(label, &su.max, &su.min, &su.note, &tb);
    proof {
        assert(su.max@ == crate::aggregate::summary_max_spec(temps@));
        assert(su.min@ == crate::aggregate::summary_min_spec(temps@));
        assert(su.note@ == crate::aggregate::summary_note_spec(temps@));
    }
    upsert_weather_block(content, &nb);
}

} // verus!

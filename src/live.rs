//! Projection of a rendered block into an application's live file.
//!
//! The engine owns the text from the first opening marker line to the
//! first closing marker line after it; everything before and after that
//! is left exactly as it was.
use vstd::prelude::*;
use crate::text::{chars_of, find_first, find_from, first_match_at, first_match_from, matches_at, occurs_in};

verus! {

/// The line that opens the engine's block in a live file.
pub open spec fn begin_text() -> Seq<char> {
    "# cc-switch managed section begin\n"@
}

/// The line that closes the engine's block.
pub open spec fn end_text() -> Seq<char> {
    "# cc-switch managed section end\n"@
}

pub fn begin_marker() -> (r: &'static str)
    ensures
        r@ == begin_text(),
{
    "# cc-switch managed section begin\n"
}

pub fn end_marker() -> (r: &'static str)
    ensures
        r@ == end_text(),
{
    "# cc-switch managed section end\n"
}

/// The first character of `m` occurs nowhere else in it.
pub open spec fn head_unique(m: Seq<char>) -> bool {
    &&& m.len() > 1
    &&& forall|k: int| 1 <= k < m.len() ==> #[trigger] m[k] != m[0]
}

pub proof fn lemma_markers_head_unique()
    ensures
        head_unique(begin_text()),
        head_unique(end_text()),
{
    reveal_strlit("# cc-switch managed section begin\n");
    reveal_strlit("# cc-switch managed section end\n");
}

/// The live file `s` with the engine's block replaced by `block`; nothing
/// when `block` holds a closing marker, or `s` opens a block it never
/// closes.
pub open spec fn projection(s: Seq<char>, block: Seq<char>) -> Option<Seq<char>> {
    let (b, e) = (begin_text(), end_text());
    if occurs_in(block, e) {
        None
    } else if exists|p: int| first_match_at(s, b, p) {
        let p = choose|p: int| first_match_at(s, b, p);
        if exists|q: int| #[trigger] first_match_from(s, e, p + b.len(), q) {
            let q = choose|q: int| #[trigger] first_match_from(s, e, p + b.len(), q);
            Some(s.take(p) + b + block + e + s.skip(q + e.len()))
        } else {
            None
        }
    } else {
        Some(s + b + block + e)
    }
}

/// No occurrence of `m` starts before `at` and runs into the copy of `m`
/// that starts at `at`.
proof fn lemma_no_straddle(g: Seq<char>, m: Seq<char>, at: int, r: int)
    requires
        head_unique(m),
        matches_at(g, at, m),
        r < at < r + m.len(),
    ensures
        !matches_at(g, r, m),
{
    if matches_at(g, r, m) {
        let d = at - r;
        assert(g[r + d] == m[d]);
        assert(g[at + 0] == m[0]);
    }
}

/// Where `g` and `s` agree below `n`, an occurrence that ends by `n` is
/// in both or in neither.
proof fn lemma_agree_below(g: Seq<char>, s: Seq<char>, m: Seq<char>, n: int, r: int)
    requires
        n <= g.len(),
        n <= s.len(),
        forall|i: int| 0 <= i < n ==> #[trigger] g[i] == s[i],
        0 <= r,
        r + m.len() <= n,
    ensures
        matches_at(g, r, m) == matches_at(s, r, m),
{
    if matches_at(g, r, m) {
        assert forall|k: int| 0 <= k < m.len() implies #[trigger] s[r + k] == m[k] by {
            assert(g[r + k] == m[k]);
        }
    }
    if matches_at(s, r, m) {
        assert forall|k: int| 0 <= k < m.len() implies #[trigger] g[r + k] == m[k] by {
            assert(s[r + k] == m[k]);
        }
    }
}

pub proof fn lemma_some_match_has_first(s: Seq<char>, m: Seq<char>, q: int)
    requires
        matches_at(s, q, m),
    ensures
        exists|p: int| first_match_at(s, m, p),
    decreases q,
{
    if forall|r: int| 0 <= r < q ==> !#[trigger] matches_at(s, r, m) {
        assert(first_match_at(s, m, q));
    } else {
        let r = choose|r: int| 0 <= r < q && #[trigger] matches_at(s, r, m);
        lemma_some_match_has_first(s, m, r);
    }
}

pub proof fn lemma_first_match_unique(s: Seq<char>, m: Seq<char>, p: int, q: int)
    requires
        first_match_at(s, m, p),
        first_match_at(s, m, q),
    ensures
        p == q,
{
    if p < q {
        assert(!matches_at(s, p, m));
    } else if q < p {
        assert(!matches_at(s, q, m));
    }
}

proof fn lemma_first_from_unique(s: Seq<char>, m: Seq<char>, f: int, p: int, q: int)
    requires
        first_match_from(s, m, f, p),
        first_match_from(s, m, f, q),
    ensures
        p == q,
{
    if p < q {
        assert(!matches_at(s, p, m));
    } else if q < p {
        assert(!matches_at(s, q, m));
    }
}

/// In `g = pre + begin + block + end + post`, where `pre` holds no
/// opening marker and `block` no closing one, the engine finds exactly
/// the block between the two markers, so projecting `block` again gives
/// `g` back.
proof fn lemma_reprojection(pre: Seq<char>, block: Seq<char>, post: Seq<char>)
    requires
        forall|r: int| 0 <= r && r + begin_text().len() <= pre.len() + begin_text().len() && r < pre.len()
            ==> !#[trigger] matches_at(pre + begin_text(), r, begin_text()),
        !occurs_in(block, end_text()),
    ensures
        projection(pre + begin_text() + block + end_text() + post, block)
            == Some(pre + begin_text() + block + end_text() + post),
{
    let (b, e) = (begin_text(), end_text());
    lemma_markers_head_unique();
    let g = pre + b + block + e + post;
    let p = pre.len() as int;
    let f = p + b.len();
    let q = f + block.len();
    let h = pre + b;
    assert forall|i: int| 0 <= i < h.len() implies #[trigger] g[i] == h[i] by {}
    assert forall|k: int| 0 <= k < b.len() implies #[trigger] g[p + k] == b[k] by {
        assert(g[p + k] == h[p + k]);
    }
    assert(matches_at(g, p, b));
    assert forall|r: int| 0 <= r < p implies !#[trigger] matches_at(g, r, b) by {
        lemma_agree_below(g, h, b, h.len() as int, r);
    }
    assert(first_match_at(g, b, p));
    assert forall|k: int| 0 <= k < e.len() implies #[trigger] g[q + k] == e[k] by {}
    assert(matches_at(g, q, e));
    assert forall|r: int| f <= r < q implies !#[trigger] matches_at(g, r, e) by {
        if r + e.len() <= q {
            if matches_at(g, r, e) {
                assert forall|k: int| 0 <= k < e.len() implies #[trigger] block[(r - f) + k] == e[k] by {
                    assert(g[r + k] == e[k]);
                    assert(g[r + k] == block[r + k - f]);
                }
                assert(matches_at(block, r - f, e));
            }
        } else {
            lemma_no_straddle(g, e, q, r);
        }
    }
    assert(first_match_from(g, e, f, q));
    let p2 = choose|p2: int| first_match_at(g, b, p2);
    lemma_first_match_unique(g, b, p, p2);
    let q2 = choose|q2: int| #[trigger] first_match_from(g, e, f, q2);
    lemma_first_from_unique(g, e, f, q, q2);
    assert(g.take(p) =~= pre);
    assert(g.skip(q + e.len()) =~= post);
    assert(g.take(p) + b + block + e + g.skip(q + e.len()) =~= g);
}

/// Projecting the same block twice gives the same file as projecting it
/// once: a second projection succeeds and rewrites nothing.
pub proof fn lemma_projection_idempotent(s: Seq<char>, block: Seq<char>)
    requires
        projection(s, block) is Some,
    ensures
        projection(projection(s, block)->0, block) == projection(s, block),
{
    let (b, e) = (begin_text(), end_text());
    lemma_markers_head_unique();
    if exists|p: int| first_match_at(s, b, p) {
        let p = choose|p: int| first_match_at(s, b, p);
        let q = choose|q: int| #[trigger] first_match_from(s, e, p + b.len(), q);
        let pre = s.take(p);
        let post = s.skip(q + e.len());
        let h = pre + b;
        assert forall|i: int| 0 <= i < h.len() implies #[trigger] h[i] == s[i] by {
            if i >= p {
                assert(s[p + (i - p)] == b[i - p]);
            }
        }
        assert forall|r: int| 0 <= r && r + b.len() <= pre.len() + b.len() && r < pre.len()
            implies !#[trigger] matches_at(h, r, b) by {
            lemma_agree_below(h, s, b, h.len() as int, r);
        }
        lemma_reprojection(pre, block, post);
        assert(pre + b + block + e + post == projection(s, block)->0);
    } else {
        let h = s + b;
        assert forall|r: int| 0 <= r && r + b.len() <= s.len() + b.len() && r < s.len()
            implies !#[trigger] matches_at(h, r, b) by {
            if r + b.len() <= s.len() {
                lemma_agree_below(h, s, b, s.len() as int, r);
                if matches_at(s, r, b) {
                    lemma_some_match_has_first(s, b, r);
                }
            } else {
                assert forall|k: int| 0 <= k < b.len() implies #[trigger] h[s.len() + k] == b[k] by {}
                assert(matches_at(h, s.len() as int, b));
                lemma_no_straddle(h, b, s.len() as int, r);
            }
        }
        lemma_reprojection(s, block, Seq::empty());
        assert(s + b + block + e + Seq::<char>::empty() =~= s + b + block + e);
    }
}

/// The live file `existing` with the engine's block replaced by `block`:
/// nothing when `block` holds a closing marker or `existing` opens a block
/// it never closes.
pub fn project(existing: &str, block: &str) -> (r: Option<String>)
    ensures
        match r {
            Some(t) => projection(existing@, block@) == Some(t@),
            None => projection(existing@, block@) is None,
        },
{
    let cs = chars_of(existing);
    let n = cs.len();
    let bc = chars_of(block);
    let bm = chars_of(begin_marker());
    let em = chars_of(end_marker());
    if find_first(&bc, &em).is_some() {
        return None;
    }
    match find_first(&cs, &bm) {
        None => {
            proof {
                if exists|q: int| first_match_at(existing@, begin_text(), q) {
                    let q = choose|q: int| first_match_at(existing@, begin_text(), q);
                    assert(matches_at(existing@, q, begin_text()));
                }
            }
            let mut out = existing.to_owned();
            out.append(begin_marker());
            out.append(block);
            out.append(end_marker());
            Some(out)
        },
        Some(p) => {
            proof {
                let q = choose|q: int| first_match_at(existing@, begin_text(), q);
                lemma_first_match_unique(existing@, begin_text(), p as int, q);
            }
            let f = p + bm.len();
            match find_from(&cs, &em, f) {
                None => {
                    proof {
                        if exists|q: int| #[trigger] first_match_from(existing@, end_text(), f as int, q) {
                            let q = choose|q: int| #[trigger] first_match_from(existing@, end_text(), f as int, q);
                            assert(matches_at(existing@, q, end_text()));
                        }
                    }
                    None
                },
                Some(q) => {
                    proof {
                        let q2 = choose|q2: int| #[trigger] first_match_from(existing@, end_text(), f as int, q2);
                        lemma_first_from_unique(existing@, end_text(), f as int, q as int, q2);
                    }
                    let mut out = existing.substring_char(0, p).to_owned();
                    out.append(begin_marker());
                    out.append(block);
                    out.append(end_marker());
                    out.append(existing.substring_char(q + em.len(), n));
                    proof {
                        assert(existing@.subrange(q + end_text().len(), n as int) =~= existing@.skip(q + end_text().len()));
                    }
                    Some(out)
                },
            }
        },
    }
}

} // verus!

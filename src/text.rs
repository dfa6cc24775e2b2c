//! Character-sequence helpers: copying text into a vector and locating a
//! pattern in it.
use vstd::prelude::*;

verus! {

/// `m` occurs in `s` starting at `i`.
pub open spec fn matches_at(s: Seq<char>, i: int, m: Seq<char>) -> bool {
    &&& 0 <= i
    &&& i + m.len() <= s.len()
    &&& forall|k: int| 0 <= k < m.len() ==> #[trigger] s[i + k] == m[k]
}

/// `p` is the first position at which `m` occurs in `s`.
pub open spec fn first_match_at(s: Seq<char>, m: Seq<char>, p: int) -> bool {
    &&& matches_at(s, p, m)
    &&& forall|q: int| 0 <= q < p ==> !#[trigger] matches_at(s, q, m)
}

/// `p` is the first position at or after `f` at which `m` occurs in `s`.
pub open spec fn first_match_from(s: Seq<char>, m: Seq<char>, f: int, p: int) -> bool {
    &&& f <= p
    &&& matches_at(s, p, m)
    &&& forall|q: int| f <= q < p ==> !#[trigger] matches_at(s, q, m)
}

pub open spec fn occurs_in(s: Seq<char>, m: Seq<char>) -> bool {
    exists|q: int| #[trigger] matches_at(s, q, m)
}

/// The characters of `s`, one per element.
pub fn chars_of(s: &str) -> (r: Vec<char>)
    ensures
        r@ == s@,
{
    let n = s.unicode_len();
    let mut r: Vec<char> = Vec::new();
    let mut i: usize = 0;
    while i < n
        invariant
            n == s@.len(),
            i <= n,
            r@ == s@.take(i as int),
        decreases n - i,
    {
        r.push(s.get_char(i));
        i += 1;
        assert(r@ =~= s@.take(i as int));
    }
    assert(r@ =~= s@);
    r
}

/// Whether `m` occurs in `s` at position `i`.
pub fn match_here(s: &Vec<char>, i: usize, m: &Vec<char>) -> (r: bool)
    ensures
        r == matches_at(s@, i as int, m@),
{
    if i > s.len() || m.len() > s.len() - i {
        return false;
    }
    let n = s.len();
    let mut k: usize = 0;
    while k < m.len()
        invariant
            n == s@.len(),
            i + m@.len() <= s@.len(),
            k <= m@.len(),
            forall|j: int| 0 <= j < k ==> #[trigger] s@[i + j] == m@[j],
        decreases m@.len() - k,
    {
        if s[i + k] != m[k] {
            return false;
        }
        k += 1;
    }
    true
}

/// The first position at or after `f` at which `m` occurs in `s`, if any.
pub fn find_from(s: &Vec<char>, m: &Vec<char>, f: usize) -> (r: Option<usize>)
    ensures
        match r {
            Some(p) => first_match_from(s@, m@, f as int, p as int),
            None => forall|q: int| f <= q ==> !#[trigger] matches_at(s@, q, m@),
        },
{
    let mut i: usize = f;
    while i < s.len()
        invariant
            f <= i,
            i <= s@.len() || i == f,
            forall|q: int| f <= q < i ==> !#[trigger] matches_at(s@, q, m@),
        decreases s@.len() - i,
    {
        if match_here(s, i, m) {
            return Some(i);
        }
        i += 1;
    }
    if match_here(s, i, m) {
        return Some(i);
    }
    assert forall|q: int| f <= q implies !#[trigger] matches_at(s@, q, m@) by {
        if matches_at(s@, q, m@) && q > i {
            assert(q + m@.len() <= s@.len());
        }
    }
    None
}

/// The first position at which `m` occurs in `s`, if it occurs.
pub fn find_first(s: &Vec<char>, m: &Vec<char>) -> (r: Option<usize>)
    ensures
        match r {
            Some(p) => first_match_at(s@, m@, p as int),
            None => !occurs_in(s@, m@),
        },
{
    let mut i: usize = 0;
    while i < s.len()
        invariant
            i <= s@.len(),
            forall|q: int| 0 <= q < i ==> !#[trigger] matches_at(s@, q, m@),
        decreases s@.len() - i,
    {
        if match_here(s, i, m) {
            return Some(i);
        }
        i += 1;
    }
    if match_here(s, i, m) {
        return Some(i);
    }
    assert forall|q: int| !#[trigger] matches_at(s@, q, m@) by {
        if matches_at(s@, q, m@) && q > s@.len() {
            assert(q + m@.len() <= s@.len());
        }
    }
    None
}

} // verus!

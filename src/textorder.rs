//! Lexicographic order on text, by character code.
use vstd::prelude::*;
use crate::order::is_permutation;

verus! {

/// `a` sorts no later than `b`.
pub open spec fn text_le(a: Seq<char>, b: Seq<char>) -> bool
    decreases a.len(),
{
    if a.len() == 0 {
        true
    } else if b.len() == 0 {
        false
    } else if a[0] != b[0] {
        a[0] < b[0]
    } else {
        text_le(a.drop_first(), b.drop_first())
    }
}

pub proof fn lemma_text_le_total(a: Seq<char>, b: Seq<char>)
    ensures
        text_le(a, b) || text_le(b, a),
    decreases a.len(),
{
    if a.len() > 0 && b.len() > 0 && a[0] == b[0] {
        lemma_text_le_total(a.drop_first(), b.drop_first());
    }
}

pub proof fn lemma_text_le_transitive(a: Seq<char>, b: Seq<char>, c: Seq<char>)
    requires
        text_le(a, b),
        text_le(b, c),
    ensures
        text_le(a, c),
    decreases a.len(),
{
    if a.len() > 0 && b.len() > 0 && c.len() > 0 && a[0] == b[0] && b[0] == c[0] {
        lemma_text_le_transitive(a.drop_first(), b.drop_first(), c.drop_first());
    }
}

/// Whether `a` sorts no later than `b`.
pub fn text_leq(a: &Vec<char>, b: &Vec<char>) -> (r: bool)
    ensures
        r == text_le(a@, b@),
{
    let mut i: usize = 0;
    assert(a@.skip(0) =~= a@ && b@.skip(0) =~= b@);
    while i < a.len() && i < b.len() && a[i] == b[i]
        invariant
            i <= a@.len(),
            i <= b@.len(),
            text_le(a@, b@) == text_le(a@.skip(i as int), b@.skip(i as int)),
        decreases a@.len() - i,
    {
        assert(a@.skip(i as int).drop_first() =~= a@.skip(i + 1));
        assert(b@.skip(i as int).drop_first() =~= b@.skip(i + 1));
        i += 1;
    }
    if i == a.len() {
        return true;
    }
    if i == b.len() {
        return false;
    }
    a[i] < b[i]
}

/// Positions of `keys` in ascending text order; equal texts keep their order.
pub fn order_by_text(keys: &Vec<Vec<char>>) -> (r: Vec<usize>)
    ensures
        is_permutation(r@, keys@.len()),
        forall|i: int, j: int| 0 <= i < j < r@.len() ==> text_le(keys@[#[trigger] r@[i] as int]@, keys@[#[trigger] r@[j] as int]@),
{
    let mut r: Vec<usize> = Vec::new();
    let mut n: usize = 0;
    while n < keys.len()
        invariant
            n <= keys@.len(),
            is_permutation(r@, n as nat),
            forall|i: int, j: int| 0 <= i < j < r@.len() ==> text_le(keys@[#[trigger] r@[i] as int]@, keys@[#[trigger] r@[j] as int]@),
        decreases keys@.len() - n,
    {
        let mut k: usize = 0;
        while k < r.len() && text_leq(&keys[r[k]], &keys[n])
            invariant
                k <= r@.len(),
                n < keys@.len(),
                is_permutation(r@, n as nat),
                forall|j: int| 0 <= j < k ==> text_le(keys@[#[trigger] r@[j] as int]@, keys@[n as int]@),
            decreases r@.len() - k,
        {
            k += 1;
        }
        let ghost before = r@;
        let ghost kn = keys@[n as int]@;
        r.insert(k, n);
        proof {
            let after = r@;
            assert(after =~= before.insert(k as int, n));
            assert forall|i: int, j: int| 0 <= i < j < after.len() implies text_le(keys@[#[trigger] after[i] as int]@, keys@[#[trigger] after[j] as int]@) by {
                if j < k {
                    assert(after[i] == before[i] && after[j] == before[j]);
                } else if j == k {
                    assert(after[i] == before[i]);
                } else if i == k {
                    assert(after[j] == before[j - 1]);
                    let bk = keys@[before[k as int] as int]@;
                    lemma_text_le_total(bk, kn);
                    if k != j - 1 {
                        assert(text_le(bk, keys@[before[j - 1] as int]@));
                        lemma_text_le_transitive(kn, bk, keys@[before[j - 1] as int]@);
                    }
                } else if i < k {
                    assert(after[i] == before[i] && after[j] == before[j - 1]);
                } else {
                    assert(after[i] == before[i - 1] && after[j] == before[j - 1]);
                }
            }
            assert forall|i: int, j: int| 0 <= i < after.len() && 0 <= j < after.len() && i != j implies #[trigger] after[i] != #[trigger] after[j] by {
                if i != k && j != k {
                    let bi = if i < k { i } else { i - 1 };
                    let bj = if j < k { j } else { j - 1 };
                    assert(after[i] == before[bi] && after[j] == before[bj]);
                } else if i == k {
                    let bj = if j < k { j } else { j - 1 };
                    assert(after[j] == before[bj]);
                } else {
                    let bi = if i < k { i } else { i - 1 };
                    assert(after[i] == before[bi]);
                }
            }
            assert forall|i: int| 0 <= i < after.len() implies #[trigger] after[i] < n + 1 by {
                if i != k {
                    let bi = if i < k { i } else { i - 1 };
                    assert(after[i] == before[bi]);
                }
            }
        }
        n += 1;
    }
    r
}

} // verus!

//! Display orders: providers by explicit sort index, then creation time;
//! prompts by most recent update first.
use vstd::prelude::*;
use crate::model::{Prompt, Provider};

verus! {

/// Lexicographic order on pairs.
pub open spec fn key_le(a: (i128, i128), b: (i128, i128)) -> bool {
    a.0 < b.0 || (a.0 == b.0 && a.1 <= b.1)
}

fn key_leq(a: (i128, i128), b: (i128, i128)) -> (r: bool)
    ensures
        r == key_le(a, b),
{
    a.0 < b.0 || (a.0 == b.0 && a.1 <= b.1)
}

/// `r` lists every position below `n` exactly once.
pub open spec fn is_permutation(r: Seq<usize>, n: nat) -> bool {
    &&& r.len() == n
    &&& forall|i: int| 0 <= i < r.len() ==> #[trigger] r[i] < n
    &&& forall|i: int, j: int| 0 <= i < r.len() && 0 <= j < r.len() && i != j ==> #[trigger] r[i] != #[trigger] r[j]
}

/// Positions of `keys` in ascending key order; equal keys keep their order.
pub fn order_by_keys(keys: &Vec<(i128, i128)>) -> (r: Vec<usize>)
    ensures
        is_permutation(r@, keys@.len()),
        forall|i: int, j: int| 0 <= i < j < r@.len() ==> key_le(keys@[#[trigger] r@[i] as int], keys@[#[trigger] r@[j] as int]),
{
    let mut r: Vec<usize> = Vec::new();
    let mut n: usize = 0;
    while n < keys.len()
        invariant
            n <= keys@.len(),
            is_permutation(r@, n as nat),
            forall|i: int, j: int| 0 <= i < j < r@.len() ==> key_le(keys@[#[trigger] r@[i] as int], keys@[#[trigger] r@[j] as int]),
        decreases keys@.len() - n,
    {
        let kn = keys[n];
        let mut k: usize = 0;
        while k < r.len() && key_leq(keys[r[k]], kn)
            invariant
                k <= r@.len(),
                kn == keys@[n as int],
                n < keys@.len(),
                is_permutation(r@, n as nat),
                forall|j: int| 0 <= j < k ==> key_le(keys@[#[trigger] r@[j] as int], kn),
            decreases r@.len() - k,
        {
            k += 1;
        }
        let ghost before = r@;
        r.insert(k, n);
        proof {
            let after = r@;
            assert(after =~= before.insert(k as int, n));
            assert forall|i: int, j: int| 0 <= i < j < after.len() implies key_le(keys@[#[trigger] after[i] as int], keys@[#[trigger] after[j] as int]) by {
                if j < k {
                    assert(after[i] == before[i] && after[j] == before[j]);
                } else if j == k {
                    assert(after[i] == before[i]);
                } else if i == k {
                    assert(after[j] == before[j - 1]);
                    assert(!key_le(keys@[before[k as int] as int], kn));
                    assert(k == j - 1 || key_le(keys@[before[k as int] as int], keys@[before[j - 1] as int]));
                } else if i < k {
                    assert(after[i] == before[i] && after[j] == before[j - 1]);
                } else {
                    assert(after[i] == before[i - 1] && after[j] == before[j - 1]);
                }
            }
            assert forall|i: int, j: int| 0 <= i < after.len() && 0 <= j < after.len() && i != j implies #[trigger] after[i] != #[trigger] after[j] by {
                if i != k && j != k {
                    let bi = if i < k { i } else { i - 1 };
                    let bj = if j < k { j } else { j - 1 };
                    assert(after[i] == before[bi] && after[j] == before[bj]);
                } else if i == k {
                    let bj = if j < k { j } else { j - 1 };
                    assert(after[j] == before[bj]);
                } else {
                    let bi = if i < k { i } else { i - 1 };
                    assert(after[i] == before[bi]);
                }
            }
            assert forall|i: int| 0 <= i < after.len() implies #[trigger] after[i] < n + 1 by {
                if i != k {
                    let bi = if i < k { i } else { i - 1 };
                    assert(after[i] == before[bi]);
                }
            }
        }
        n += 1;
    }
    r
}

/// `a` is shown no later than `b`: an explicit sort index first (present
/// before absent, ascending), then creation time ascending (absent first),
/// which also breaks ties between equal indices.
pub open spec fn provider_le(a: Provider, b: Provider) -> bool {
    match (a.sort_index, b.sort_index) {
        (Some(x), Some(y)) => x < y || (x == y && created_le(a.created_at, b.created_at)),
        (Some(_), None) => true,
        (None, Some(_)) => false,
        (None, None) => created_le(a.created_at, b.created_at),
    }
}

pub open spec fn created_le(a: Option<i64>, b: Option<i64>) -> bool {
    match (a, b) {
        (None, _) => true,
        (Some(_), None) => false,
        (Some(x), Some(y)) => x <= y,
    }
}

/// `a` is shown no later than `b`: most recently updated first, a prompt
/// without an update time counting as the oldest of all.
pub open spec fn prompt_le(a: Prompt, b: Prompt) -> bool {
    match (a.updated_at, b.updated_at) {
        (Some(x), Some(y)) => y <= x,
        (_, None) => true,
        (None, Some(_)) => false,
    }
}

/// The key that sorts prompts in display order.
pub open spec fn prompt_key(p: Prompt) -> (i128, i128) {
    (
        match p.updated_at {
            Some(t) => (-(t as int)) as i128,
            None => 0x8000_0000_0000_0001i128,
        },
        0i128,
    )
}

pub open spec fn provider_key(p: Provider) -> (i128, i128) {
    (
        match p.sort_index {
            Some(x) => x as i128,
            None => 0x1_0000_0000_0000_0000i128,
        },
        match p.created_at {
            Some(t) => t as i128,
            None => -0x8000_0000_0000_0001i128,
        },
    )
}

fn provider_keys(ps: &Vec<Provider>) -> (r: Vec<(i128, i128)>)
    ensures
        r@.len() == ps@.len(),
        forall|i: int| 0 <= i < ps@.len() ==> #[trigger] r@[i] == provider_key(ps@[i]),
{
    let mut r: Vec<(i128, i128)> = Vec::new();
    let mut i: usize = 0;
    while i < ps.len()
        invariant
            i <= ps@.len(),
            r@.len() == i,
            forall|j: int| 0 <= j < i ==> #[trigger] r@[j] == provider_key(ps@[j]),
        decreases ps@.len() - i,
    {
        let a: i128 = match ps[i].sort_index {
            Some(x) => x as i128,
            None => 0x1_0000_0000_0000_0000i128,
        };
        let b: i128 = match ps[i].created_at {
            Some(t) => t as i128,
            None => -0x8000_0000_0000_0001i128,
        };
        r.push((a, b));
        i += 1;
    }
    r
}

/// The positions of `ps` in display order.
pub fn provider_display_order(ps: &Vec<Provider>) -> (r: Vec<usize>)
    ensures
        is_permutation(r@, ps@.len()),
        forall|i: int, j: int| 0 <= i < j < r@.len() ==> provider_le(ps@[#[trigger] r@[i] as int], ps@[#[trigger] r@[j] as int]),
{
    let keys = provider_keys(ps);
    let r = order_by_keys(&keys);
    assert forall|i: int, j: int| 0 <= i < j < r@.len() implies provider_le(ps@[#[trigger] r@[i] as int], ps@[#[trigger] r@[j] as int]) by {
        assert(key_le(keys@[r@[i] as int], keys@[r@[j] as int]));
    }
    r
}

/// The positions of `ps` in display order.
pub fn prompt_display_order(ps: &Vec<Prompt>) -> (r: Vec<usize>)
    ensures
        is_permutation(r@, ps@.len()),
        forall|i: int, j: int| 0 <= i < j < r@.len() ==> prompt_le(ps@[#[trigger] r@[i] as int], ps@[#[trigger] r@[j] as int]),
{
    let mut keys: Vec<(i128, i128)> = Vec::new();
    let mut i: usize = 0;
    while i < ps.len()
        invariant
            i <= ps@.len(),
            keys@.len() == i,
            forall|j: int| 0 <= j < i ==> #[trigger] keys@[j] == prompt_key(ps@[j]),
        decreases ps@.len() - i,
    {
        let a: i128 = match ps[i].updated_at {
            Some(t) => -(t as i128),
            None => 0x8000_0000_0000_0001i128,
        };
        keys.push((a, 0));
        i += 1;
    }
    let r = order_by_keys(&keys);
    assert forall|i: int, j: int| 0 <= i < j < r@.len() implies prompt_le(ps@[#[trigger] r@[i] as int], ps@[#[trigger] r@[j] as int]) by {
        assert(key_le(keys@[r@[i] as int], keys@[r@[j] as int]));
    }
    r
}

} // verus!

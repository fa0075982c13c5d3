use vstd::prelude::*;
use crate::matcher::{copy_row, WineRow};

verus! {

/// Whether another row than the one at `index` shows the same wine with a
/// rating at least as high.
pub open spec fn has_better(wines: Seq<WineRow>, wine: WineRow, index: int) -> bool {
    exists|i: int|
        0 <= i < wines.len() && i != index && (#[trigger] wines[i]).id == wine.id && wines[i].rating
            >= wine.rating
}

/// Whether a row is outranked by another row of the same wine: one with a
/// higher rating, or with the same rating further down.
pub open spec fn outranks(s: Seq<WineRow>, j: int, k: int) -> bool {
    j != k && s[j].id == s[k].id && (s[j].rating > s[k].rating || (s[j].rating == s[k].rating && j
        > k))
}

/// Whether the row at `k` is the one kept for its wine: no row outranks it.
pub open spec fn kept(s: Seq<WineRow>, k: int) -> bool {
    forall|j: int| 0 <= j < s.len() ==> !#[trigger] outranks(s, j, k)
}

/// The rows kept among the first `n`, in their order.
pub open spec fn dedup_prefix(s: Seq<WineRow>, n: int) -> Seq<WineRow>
    decreases n,
{
    if n <= 0 {
        Seq::empty()
    } else if kept(s, n - 1) {
        dedup_prefix(s, n - 1).push(s[n - 1])
    } else {
        dedup_prefix(s, n - 1)
    }
}

/// One row per wine: for each wine, its row with the highest rating, the last
/// such row on a tie; rows keep their order.
pub open spec fn dedup(s: Seq<WineRow>) -> Seq<WineRow> {
    dedup_prefix(s, s.len() as int)
}

/// Whether another row than the one at `index` shows the same wine with a
/// rating at least as high: such a row makes the one at `index` a duplicate.
pub fn is_dup_wine(wines: &Vec<WineRow>, wine: &WineRow, index: usize) -> (r: bool)
    ensures
        r == has_better(wines@, *wine, index as int),
{
    let mut i: usize = 0;
    while i < wines.len()
        invariant
            i <= wines@.len(),
            forall|j: int|
                0 <= j < i ==> !(j != index && (#[trigger] wines@[j]).id == wine.id
                    && wines@[j].rating >= wine.rating),
        decreases wines.len() - i,
    {
        if i != index && wines[i].id == wine.id && wines[i].rating >= wine.rating {
            return true;
        }
        i = i + 1;
    }
    false
}

/// Whether the row at `k` is kept.
fn is_kept(wines: &Vec<WineRow>, k: usize) -> (r: bool)
    requires
        k < wines@.len(),
    ensures
        r == kept(wines@, k as int),
{
    let mut j: usize = 0;
    while j < wines.len()
        invariant
            k < wines@.len(),
            j <= wines@.len(),
            forall|i: int| 0 <= i < j ==> !#[trigger] outranks(wines@, i, k as int),
        decreases wines.len() - j,
    {
        if j != k && wines[j].id == wines[k].id && (wines[j].rating > wines[k].rating || (
        wines[j].rating == wines[k].rating && j > k)) {
            assert(outranks(wines@, j as int, k as int));
            return false;
        }
        j = j + 1;
    }
    true
}

/// Removes the duplicate wines of a result: each wine keeps one row, the one
/// with its highest rating (the last of them on a tie), and rows keep their
/// order.
pub fn dedup_wines(wines: &Vec<WineRow>) -> (r: Vec<WineRow>)
    ensures
        r@ == dedup(wines@),
{
    let mut r: Vec<WineRow> = Vec::new();
    let mut k: usize = 0;
    while k < wines.len()
        invariant
            k <= wines@.len(),
            r@ == dedup_prefix(wines@, k as int),
        decreases wines.len() - k,
    {
        if is_kept(wines, k) {
            r.push(copy_row(&wines[k]));
        }
        k = k + 1;
    }
    r
}

proof fn lemma_kept_unique(s: Seq<WineRow>, a: int, b: int)
    requires
        0 <= a < s.len(),
        0 <= b < s.len(),
        kept(s, a),
        kept(s, b),
        s[a].id == s[b].id,
    ensures
        a == b,
{
    if a != b {
        assert(!outranks(s, a, b));
        assert(!outranks(s, b, a));
    }
}

proof fn lemma_prefix_from_kept(s: Seq<WineRow>, n: int)
    requires
        0 <= n <= s.len(),
    ensures
        forall|a: int|
            0 <= a < dedup_prefix(s, n).len() ==> exists|k: int|
                0 <= k < n && kept(s, k) && #[trigger] dedup_prefix(s, n)[a] == s[k],
    decreases n,
{
    if n > 0 {
        lemma_prefix_from_kept(s, n - 1);
        assert forall|a: int| 0 <= a < dedup_prefix(s, n).len() implies exists|k: int|
            0 <= k < n && kept(s, k) && #[trigger] dedup_prefix(s, n)[a] == s[k] by {
            if a < dedup_prefix(s, n - 1).len() {
                assert(dedup_prefix(s, n)[a] == dedup_prefix(s, n - 1)[a]);
            } else {
                assert(dedup_prefix(s, n)[a] == s[n - 1]);
            }
        }
    }
}

proof fn lemma_prefix_has_kept(s: Seq<WineRow>, n: int, k: int)
    requires
        0 <= k < n <= s.len(),
        kept(s, k),
    ensures
        dedup_prefix(s, n).contains(s[k]),
    decreases n,
{
    if k < n - 1 {
        lemma_prefix_has_kept(s, n - 1, k);
        let a = choose|a: int| 0 <= a < dedup_prefix(s, n - 1).len() && #[trigger] dedup_prefix(s, n - 1)[a]
            == s[k];
        if kept(s, n - 1) {
            assert(dedup_prefix(s, n)[a] == s[k]);
        }
    } else {
        assert(dedup_prefix(s, n)[dedup_prefix(s, n).len() - 1] == s[k]);
    }
}

proof fn lemma_prefix_unique(s: Seq<WineRow>, n: int)
    requires
        0 <= n <= s.len(),
    ensures
        forall|a: int, b: int|
            0 <= a < b < dedup_prefix(s, n).len() ==> (#[trigger] dedup_prefix(s, n)[a]).id
                != (#[trigger] dedup_prefix(s, n)[b]).id,
    decreases n,
{
    if n > 0 {
        lemma_prefix_unique(s, n - 1);
        lemma_prefix_from_kept(s, n - 1);
        let p = dedup_prefix(s, n - 1);
        if kept(s, n - 1) {
            assert forall|a: int, b: int|
                0 <= a < b < dedup_prefix(s, n).len() implies (#[trigger] dedup_prefix(
                s,
                n,
            )[a]).id != (#[trigger] dedup_prefix(s, n)[b]).id by {
                if b < p.len() {
                    assert(dedup_prefix(s, n)[a] == p[a]);
                    assert(dedup_prefix(s, n)[b] == p[b]);
                } else {
                    assert(dedup_prefix(s, n)[a] == p[a]);
                    let k = choose|k: int| 0 <= k < n - 1 && kept(s, k) && #[trigger] p[a] == s[k];
                    if s[k].id == s[n - 1].id {
                        lemma_kept_unique(s, k, n - 1);
                    }
                }
            }
        }
    }
}

/// Exists a kept row of the same wine rated at least as high as row `i`.
proof fn lemma_some_kept(s: Seq<WineRow>, i: int)
    requires
        0 <= i < s.len(),
    ensures
        exists|k: int|
            0 <= k < s.len() && kept(s, k) && (#[trigger] s[k]).id == s[i].id && s[k].rating
                >= s[i].rating,
    decreases 0x8000_0000 - s[i].rating, s.len() - i,
{
    if !kept(s, i) {
        let j = choose|j: int| 0 <= j < s.len() && #[trigger] outranks(s, j, i);
        lemma_some_kept(s, j);
        let k = choose|k: int|
            0 <= k < s.len() && kept(s, k) && (#[trigger] s[k]).id == s[j].id && s[k].rating
                >= s[j].rating;
        assert(s[k].id == s[i].id && s[k].rating >= s[i].rating);
    } else {
        assert(s[i].id == s[i].id);
    }
}

/// After deduplication no two rows show the same wine; each wine of the input
/// is still there, with the highest rating that the input gives it, on a row
/// that the input holds.
pub proof fn lemma_dedup_one_row_per_wine(s: Seq<WineRow>)
    ensures
        forall|a: int, b: int|
            0 <= a < b < dedup(s).len() ==> (#[trigger] dedup(s)[a]).id != (#[trigger] dedup(
                s,
            )[b]).id,
        forall|i: int|
            0 <= i < s.len() ==> exists|a: int|
                0 <= a < dedup(s).len() && (#[trigger] dedup(s)[a]).id == (#[trigger] s[i]).id,
        forall|a: int, i: int|
            0 <= a < dedup(s).len() && 0 <= i < s.len() && (#[trigger] dedup(s)[a]).id
                == (#[trigger] s[i]).id ==> dedup(s)[a].rating >= s[i].rating,
        forall|a: int| 0 <= a < dedup(s).len() ==> s.contains(#[trigger] dedup(s)[a]),
{
    let n = s.len() as int;
    lemma_prefix_unique(s, n);
    lemma_prefix_from_kept(s, n);
    assert forall|i: int| 0 <= i < s.len() implies exists|a: int|
        0 <= a < dedup(s).len() && (#[trigger] dedup(s)[a]).id == (#[trigger] s[i]).id by {
        lemma_some_kept(s, i);
        let k = choose|k: int|
            0 <= k < s.len() && kept(s, k) && (#[trigger] s[k]).id == s[i].id && s[k].rating
                >= s[i].rating;
        lemma_prefix_has_kept(s, n, k);
        let a = choose|a: int| 0 <= a < dedup(s).len() && #[trigger] dedup(s)[a] == s[k];
        assert(dedup(s)[a].id == s[i].id);
    }
    assert forall|a: int, i: int|
        0 <= a < dedup(s).len() && 0 <= i < s.len() && (#[trigger] dedup(s)[a]).id
            == (#[trigger] s[i]).id implies dedup(s)[a].rating >= s[i].rating by {
        let k = choose|k: int| 0 <= k < n && kept(s, k) && #[trigger] dedup_prefix(s, n)[a] == s[k];
        assert(!outranks(s, i, k));
    }
    assert forall|a: int| 0 <= a < dedup(s).len() implies s.contains(#[trigger] dedup(s)[a]) by {
        let k = choose|k: int| 0 <= k < n && kept(s, k) && #[trigger] dedup_prefix(s, n)[a] == s[k];
    }
}

proof fn lemma_all_kept_prefix(s: Seq<WineRow>, n: int)
    requires
        0 <= n <= s.len(),
        forall|k: int| 0 <= k < s.len() ==> kept(s, k),
    ensures
        dedup_prefix(s, n) == s.take(n),
    decreases n,
{
    if n > 0 {
        lemma_all_kept_prefix(s, n - 1);
        assert(s.take(n - 1).push(s[n - 1]) =~= s.take(n));
    } else {
        assert(s.take(0) =~= Seq::<WineRow>::empty());
    }
}

/// Deduplicating twice gives what deduplicating once gives.
pub proof fn lemma_dedup_idempotent(s: Seq<WineRow>)
    ensures
        dedup(dedup(s)) == dedup(s),
{
    let t = dedup(s);
    lemma_dedup_one_row_per_wine(s);
    assert forall|k: int| 0 <= k < t.len() implies kept(t, k) by {
        assert forall|j: int| 0 <= j < t.len() implies !#[trigger] outranks(t, j, k) by {
            if j < k {
                assert(t[j].id != t[k].id);
            } else if j > k {
                assert(t[k].id != t[j].id);
            }
        }
    }
    lemma_all_kept_prefix(t, t.len() as int);
    assert(t.take(t.len() as int) =~= t);
}

} // verus!

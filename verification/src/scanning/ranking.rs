//! Ordering candidates by Hamming distance.
//!
//! Candidates are ranked best-first: by ascending distance (that is, by
//! descending confidence `1 - distance / 256`), ties kept in their input
//! order, candidates beyond a distance cut-off dropped, and the list capped.

use vstd::prelude::*;

verus! {

/// Indices `i < n` with `ds[i] == d`, ascending.
pub open spec fn indices_at(ds: Seq<u32>, d: nat, n: nat) -> Seq<usize>
    decreases n,
{
    if n == 0 {
        Seq::empty()
    } else {
        let rest = indices_at(ds, d, (n - 1) as nat);
        if ds[n - 1] == d {
            rest.push((n - 1) as usize)
        } else {
            rest
        }
    }
}

/// All indices whose distance is below `k`, by distance, ties in index order.
pub open spec fn ranked_below(ds: Seq<u32>, k: nat) -> Seq<usize>
    decreases k,
{
    if k == 0 {
        Seq::empty()
    } else {
        ranked_below(ds, (k - 1) as nat) + indices_at(ds, (k - 1) as nat, ds.len())
    }
}

/// The first `limit` elements of `s` (all of `s` if it is shorter).
pub open spec fn capped<T>(s: Seq<T>, limit: nat) -> Seq<T> {
    if s.len() <= limit {
        s
    } else {
        s.take(limit as int)
    }
}

/// Indices of the candidates at distance at most `max_distance`, best first,
/// at most `limit` of them.
pub open spec fn ranking(ds: Seq<u32>, max_distance: nat, limit: nat) -> Seq<usize> {
    capped(ranked_below(ds, max_distance + 1), limit)
}

proof fn lemma_capped_push<T>(s: Seq<T>, e: T, limit: nat)
    ensures
        capped(s.push(e), limit) == (if capped(s, limit).len() < limit {
            capped(s, limit).push(e)
        } else {
            capped(s, limit)
        }),
{
    if s.len() < limit {
    } else {
        assert(s.push(e).take(limit as int) =~= capped(s, limit));
    }
}

proof fn lemma_indices_at_bounded(ds: Seq<u32>, d: nat, n: nat)
    requires
        n <= ds.len(),
        ds.len() <= usize::MAX,
    ensures
        forall|j: int| 0 <= j < indices_at(ds, d, n).len() ==> indices_at(ds, d, n)[j] < n,
    decreases n,
{
    if n > 0 {
        lemma_indices_at_bounded(ds, d, (n - 1) as nat);
        let rest = indices_at(ds, d, (n - 1) as nat);
        if ds[n - 1] == d {
            assert(((n - 1) as usize) as int == n - 1);
            let full = rest.push((n - 1) as usize);
            assert forall|j: int| 0 <= j < full.len() implies #[trigger] full[j] < n by {
                if j < rest.len() {
                    assert(full[j] == rest[j]);
                }
            }
        }
    }
}

proof fn lemma_ranked_below_bounded(ds: Seq<u32>, k: nat)
    requires
        ds.len() <= usize::MAX,
    ensures
        forall|j: int|
            0 <= j < ranked_below(ds, k).len() ==> ranked_below(ds, k)[j] < ds.len(),
    decreases k,
{
    if k > 0 {
        let a = ranked_below(ds, (k - 1) as nat);
        let b = indices_at(ds, (k - 1) as nat, ds.len());
        lemma_ranked_below_bounded(ds, (k - 1) as nat);
        lemma_indices_at_bounded(ds, (k - 1) as nat, ds.len());
        assert forall|j: int| 0 <= j < (a + b).len() implies (a + b)[j] < ds.len() by {
            if j >= a.len() {
                assert((a + b)[j] == b[j - a.len()]);
            }
        }
    }
}

/// Every ranked index is a valid index into the candidates.
pub proof fn lemma_ranking_bounded(ds: Seq<u32>, max_distance: nat, limit: nat)
    requires
        ds.len() <= usize::MAX,
    ensures
        forall|j: int|
            0 <= j < ranking(ds, max_distance, limit).len() ==> ranking(ds, max_distance, limit)[j]
                < ds.len(),
        ranking(ds, max_distance, limit).len() <= limit,
{
    lemma_ranked_below_bounded(ds, max_distance + 1);
}

/// No index has a distance that no candidate has.
proof fn lemma_indices_at_absent(ds: Seq<u32>, d: nat, n: nat)
    requires
        n <= ds.len(),
        forall|j: int| 0 <= j < n ==> ds[j] != d,
    ensures
        indices_at(ds, d, n) == Seq::<usize>::empty(),
    decreases n,
{
    if n > 0 {
        lemma_indices_at_absent(ds, d, (n - 1) as nat);
    }
}

/// Raising the cut-off across distances no candidate has adds nothing.
proof fn lemma_ranked_below_gap(ds: Seq<u32>, a: nat, b: nat)
    requires
        a <= b,
        forall|j: int| 0 <= j < ds.len() ==> !(a <= #[trigger] ds[j] < b),
    ensures
        ranked_below(ds, b) == ranked_below(ds, a),
    decreases b,
{
    if b > a {
        lemma_ranked_below_gap(ds, a, (b - 1) as nat);
        lemma_indices_at_absent(ds, (b - 1) as nat, ds.len());
        assert(ranked_below(ds, (b - 1) as nat) + Seq::<usize>::empty() =~= ranked_below(
            ds,
            (b - 1) as nat,
        ));
    }
}

/// The smallest distance at least `lo`, if any candidate has one.
fn next_distance(dists: &Vec<u32>, lo: u64) -> (r: Option<u32>)
    ensures
        r is None ==> forall|j: int| 0 <= j < dists@.len() ==> dists@[j] < lo,
        r matches Some(m) ==> m >= lo && forall|j: int|
            0 <= j < dists@.len() && dists@[j] >= lo ==> dists@[j] >= m,
{
    let mut next: Option<u32> = None;
    let mut i: usize = 0;
    while i < dists.len()
        invariant
            i <= dists@.len(),
            next is None ==> forall|j: int| 0 <= j < i ==> dists@[j] < lo,
            next matches Some(m) ==> m >= lo && forall|j: int|
                0 <= j < i && dists@[j] >= lo ==> dists@[j] >= m,
        decreases dists@.len() - i,
    {
        let x = dists[i];
        if x as u64 >= lo {
            match next {
                None => {
                    next = Some(x);
                },
                Some(m) => {
                    if x < m {
                        next = Some(x);
                    }
                },
            }
        }
        i = i + 1;
    }
    next
}

/// Indices of the candidates with `dists[i] <= max_distance`, ordered by
/// ascending distance (stable), at most `limit` of them.
pub fn rank_indices(dists: &Vec<u32>, max_distance: u32, limit: usize) -> (r: Vec<usize>)
    ensures
        r@ == ranking(dists@, max_distance as nat, limit as nat),
{
    let n = dists.len();
    let mut out: Vec<usize> = Vec::new();
    // Every distance below `lo` has been taken in.
    let mut lo: u64 = 0;
    loop
        invariant
            n == dists@.len(),
            lo <= max_distance + 1,
            out@ == capped(ranked_below(dists@, lo as nat), limit as nat),
        ensures
            out@ == capped(ranked_below(dists@, max_distance as nat + 1), limit as nat),
        decreases max_distance + 1 - lo,
    {
        let d = match next_distance(dists, lo) {
            None => {
                proof {
                    lemma_ranked_below_gap(dists@, lo as nat, max_distance as nat + 1);
                }
                break ;
            },
            Some(m) => {
                if m > max_distance {
                    proof {
                        lemma_ranked_below_gap(dists@, lo as nat, max_distance as nat + 1);
                    }
                    break ;
                }
                m
            },
        };
        proof {
            lemma_ranked_below_gap(dists@, lo as nat, d as nat);
        }
        let mut i: usize = 0;
        assert(ranked_below(dists@, d as nat) + indices_at(dists@, d as nat, 0) =~= ranked_below(
            dists@,
            d as nat,
        ));
        while i < n
            invariant
                n == dists@.len(),
                i <= n,
                lo <= d <= max_distance,
                out@ == capped(
                    ranked_below(dists@, d as nat) + indices_at(dists@, d as nat, i as nat),
                    limit as nat,
                ),
            decreases n - i,
        {
            let ghost base = ranked_below(dists@, d as nat);
            let ghost prev = indices_at(dists@, d as nat, i as nat);
            if dists[i] == d {
                proof {
                    lemma_capped_push(base + prev, i, limit as nat);
                    assert((base + prev).push(i) =~= base + prev.push(i));
                }
                if out.len() < limit {
                    out.push(i);
                }
            }
            i = i + 1;
        }
        lo = d as u64 + 1;
    }
    out
}

proof fn lemma_indices_at_props(ds: Seq<u32>, d: nat, n: nat)
    requires
        n <= ds.len(),
        ds.len() <= usize::MAX,
    ensures
        forall|j: int|
            0 <= j < indices_at(ds, d, n).len() ==> {
                &&& (#[trigger] indices_at(ds, d, n)[j]) < n
                &&& ds[indices_at(ds, d, n)[j] as int] == d
            },
    decreases n,
{
    if n > 0 {
        lemma_indices_at_props(ds, d, (n - 1) as nat);
        let rest = indices_at(ds, d, (n - 1) as nat);
        if ds[n - 1] == d {
            let full = rest.push((n - 1) as usize);
            assert forall|j: int| 0 <= j < full.len() implies (#[trigger] full[j]) < n && ds[full[j]
                as int] == d by {
                if j < rest.len() {
                    assert(full[j] == rest[j]);
                }
            }
        }
    }
}

proof fn lemma_ranked_below_props(ds: Seq<u32>, k: nat)
    requires
        ds.len() <= usize::MAX,
    ensures
        forall|j: int|
            0 <= j < ranked_below(ds, k).len() ==> {
                &&& (#[trigger] ranked_below(ds, k)[j]) < ds.len()
                &&& ds[ranked_below(ds, k)[j] as int] < k
            },
        forall|j1: int, j2: int|
            0 <= j1 < j2 < ranked_below(ds, k).len() ==> ds[ranked_below(ds, k)[j1] as int]
                <= ds[ranked_below(ds, k)[j2] as int],
    decreases k,
{
    if k > 0 {
        let a = ranked_below(ds, (k - 1) as nat);
        let b = indices_at(ds, (k - 1) as nat, ds.len());
        lemma_ranked_below_props(ds, (k - 1) as nat);
        lemma_indices_at_props(ds, (k - 1) as nat, ds.len());
        let r = a + b;
        assert(ranked_below(ds, k) == r);
        assert forall|j: int| 0 <= j < r.len() implies (#[trigger] r[j]) < ds.len() && ds[r[j]
            as int] < k by {
            if j >= a.len() {
                assert(r[j] == b[j - a.len()]);
            } else {
                assert(r[j] == a[j]);
            }
        }
        assert forall|j1: int, j2: int| 0 <= j1 < j2 < r.len() implies ds[r[j1] as int] <= ds[r[j2]
            as int] by {
            if j2 < a.len() {
                assert(r[j1] == a[j1] && r[j2] == a[j2]);
            } else if j1 >= a.len() {
                assert(r[j1] == b[j1 - a.len()] && r[j2] == b[j2 - a.len()]);
            } else {
                assert(r[j1] == a[j1] && r[j2] == b[j2 - a.len()]);
            }
        }
    }
}

/// A ranking is best-first: its candidates are all within `max_distance`,
/// in ascending order of distance.
pub proof fn lemma_ranking_sorted(ds: Seq<u32>, max_distance: nat, limit: nat)
    requires
        ds.len() <= usize::MAX,
    ensures
        forall|j: int|
            0 <= j < ranking(ds, max_distance, limit).len() ==> ds[ranking(
                ds,
                max_distance,
                limit,
            )[j] as int] <= max_distance,
        forall|j1: int, j2: int|
            0 <= j1 < j2 < ranking(ds, max_distance, limit).len() ==> ds[ranking(
                ds,
                max_distance,
                limit,
            )[j1] as int] <= ds[ranking(ds, max_distance, limit)[j2] as int],
{
    let full = ranked_below(ds, max_distance + 1);
    lemma_ranked_below_props(ds, max_distance + 1);
    let r = ranking(ds, max_distance, limit);
    assert forall|j: int| 0 <= j < r.len() implies r[j] == full[j] by {}
    assert forall|j: int| 0 <= j < r.len() implies ds[r[j] as int] <= max_distance by {
        assert(r[j] == full[j]);
    }
    assert forall|j1: int, j2: int| 0 <= j1 < j2 < r.len() implies ds[r[j1] as int] <= ds[r[j2]
        as int] by {
        assert(r[j1] == full[j1] && r[j2] == full[j2]);
    }
}

} // verus!

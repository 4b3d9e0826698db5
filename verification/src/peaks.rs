//! Choosing well separated peaks: candidates come in order of preference (the
//! caller sorts them by confidence), and a candidate is kept only when it lies
//! at least `min_gap` away from every candidate kept before it.

use vstd::prelude::*;

verus! {

/// The distance between two positions.
pub open spec fn gap(a: int, b: int) -> int {
    if a >= b {
        a - b
    } else {
        b - a
    }
}

/// Position `p` lies at least `min_gap` away from every kept candidate.
pub open spec fn far_from_kept(positions: Seq<usize>, kept: Seq<int>, p: int, min_gap: int) -> bool {
    forall|j: int| 0 <= j < kept.len() ==> gap(positions[kept[j]] as int, p) >= min_gap
}

/// The indices kept among the first `n` candidates. Candidates are taken in
/// order; each is kept when it is far from all kept before it; once `limit`
/// candidates are kept, no later candidate is looked at (the first one always
/// is).
pub open spec fn spaced_selection(positions: Seq<usize>, min_gap: int, limit: int, n: int) -> Seq<
    int,
>
    decreases n,
{
    if n <= 0 {
        seq![]
    } else {
        let prev = spaced_selection(positions, min_gap, limit, n - 1);
        let i = n - 1;
        if i > 0 && prev.len() >= limit {
            prev
        } else if far_from_kept(positions, prev, positions[i] as int, min_gap) {
            prev.push(i)
        } else {
            prev
        }
    }
}

pub open spec fn as_ints(s: Seq<usize>) -> Seq<int> {
    s.map_values(|x: usize| x as int)
}

/// The indices, in increasing order, of the candidates kept from `positions`:
/// each kept candidate lies at least `min_gap` away from those kept before it,
/// and the search stops once `limit` are kept.
pub fn select_spaced(positions: &Vec<usize>, min_gap: usize, limit: usize) -> (kept: Vec<usize>)
    ensures
        as_ints(kept@) == spaced_selection(
            positions@,
            min_gap as int,
            limit as int,
            positions.len() as int,
        ),
        forall|j: int, k: int|
            0 <= j < k < kept.len() ==> kept@[j] < kept@[k] < positions.len() && (positions@[#[trigger] kept@[j] as int]
                - positions@[#[trigger] kept@[k] as int] >= min_gap || positions@[kept@[k] as int]
                - positions@[kept@[j] as int] >= min_gap),
        kept.len() <= if limit >= 1 {
            limit
        } else {
            1
        },
        kept.len() < limit ==> forall|i: int|
            0 <= i < positions.len() && !as_ints(kept@).contains(i) ==> exists|j: int|
                0 <= j < kept.len() && kept@[j] < i && positions@[kept@[j] as int] - positions@[i]
                    < min_gap && positions@[i] - positions@[kept@[j] as int] < min_gap,
{
    let mut kept: Vec<usize> = Vec::new();
    let mut i: usize = 0;
    proof {
        assert(as_ints(kept@) =~= Seq::<int>::empty());
    }
    while i < positions.len()
        invariant
            i <= positions.len(),
            as_ints(kept@) == spaced_selection(positions@, min_gap as int, limit as int, i as int),
            forall|k: int| 0 <= k < kept.len() ==> kept@[k] < i,
        decreases positions.len() - i,
    {
        let ghost prev = as_ints(kept@);
        if !(i > 0 && kept.len() >= limit) {
            let p = positions[i];
            let mut far = true;
            let mut j: usize = 0;
            while j < kept.len()
                invariant
                    j <= kept.len(),
                    prev == as_ints(kept@),
                    forall|k: int| 0 <= k < kept.len() ==> kept@[k] < i,
                    i < positions.len(),
                    p == positions@[i as int],
                    far == forall|m: int|
                        0 <= m < j ==> gap(positions@[prev[m]] as int, p as int) >= min_gap,
                decreases kept.len() - j,
            {
                proof {
                    assert(prev[j as int] == kept@[j as int] as int);
                }
                let q = positions[kept[j]];
                let d = if q >= p {
                    q - p
                } else {
                    p - q
                };
                if d < min_gap {
                    far = false;
                }
                proof {
                    assert(d == gap(positions@[prev[j as int]] as int, p as int));
                    assert(far == forall|m: int|
                        0 <= m < j + 1 ==> gap(positions@[prev[m]] as int, p as int) >= min_gap);
                }
                j = j + 1;
            }
            if far {
                proof {
                    assert(as_ints(kept@.push(i)) =~= prev.push(i as int));
                }
                kept.push(i);
            }
        }
        i = i + 1;
    }
    proof {
        let n = positions.len() as int;
        lemma_kept_far_apart(positions@, min_gap as int, limit as int, n);
        lemma_selection_bound(positions@, min_gap as int, limit as int, n);
        if kept.len() < limit {
            lemma_rejected_lie_close(positions@, min_gap as int, limit as int, n);
        }
        assert forall|j: int, k: int| 0 <= j < k < kept.len() implies kept@[j] < kept@[k]
            < positions.len() && (positions@[#[trigger] kept@[j] as int] - positions@[
            #[trigger] kept@[k] as int] >= min_gap || positions@[kept@[k] as int]
            - positions@[kept@[j] as int] >= min_gap) by {
            assert(as_ints(kept@)[j] == kept@[j] as int);
            assert(as_ints(kept@)[k] == kept@[k] as int);
        }
        assert forall|i: int|
            kept.len() < limit && 0 <= i < positions.len() && !as_ints(kept@).contains(
                i,
            ) implies exists|j: int|
            0 <= j < kept.len() && kept@[j] < i && positions@[kept@[j] as int] - positions@[i]
                < min_gap && positions@[i] - positions@[kept@[j] as int] < min_gap by {
            let j = choose|j: int|
                0 <= j < as_ints(kept@).len() && as_ints(kept@)[j] < i && positions@[as_ints(
                    kept@,
                )[j]] - positions@[i] < min_gap && positions@[i] - positions@[as_ints(
                    kept@,
                )[j]] < min_gap;
            assert(as_ints(kept@)[j] == kept@[j] as int);
        }
    }
    kept
}

/// Every two kept candidates lie at least `min_gap` apart, in either order,
/// and the kept indices increase and stay below `n`.
pub proof fn lemma_kept_far_apart(positions: Seq<usize>, min_gap: int, limit: int, n: int)
    requires
        0 <= n <= positions.len(),
    ensures
        ({
            let kept = spaced_selection(positions, min_gap, limit, n);
            &&& forall|k: int| 0 <= k < kept.len() ==> 0 <= #[trigger] kept[k] < n
            &&& forall|j: int, k: int|
                0 <= j < k < kept.len() ==> #[trigger] kept[j] < #[trigger] kept[k]
            &&& forall|j: int, k: int|
                0 <= j < k < kept.len() ==> positions[#[trigger] kept[j]] - positions[
                    #[trigger] kept[k]] >= min_gap || positions[kept[k]] - positions[kept[j]]
                    >= min_gap
        }),
{
    lemma_selection_spaced(positions, min_gap, limit, n);
    let kept = spaced_selection(positions, min_gap, limit, n);
    assert forall|j: int, k: int| 0 <= j < k < kept.len() implies positions[#[trigger] kept[j]]
        - positions[#[trigger] kept[k]] >= min_gap || positions[kept[k]] - positions[kept[j]]
        >= min_gap by {
        assert(gap(positions[kept[j]] as int, positions[kept[k]] as int) >= min_gap);
    }
}

/// While fewer than `limit` are kept, every candidate among the first `n`
/// that is not kept lies less than `min_gap` away, in either direction, from
/// a candidate kept before it.
pub proof fn lemma_rejected_lie_close(positions: Seq<usize>, min_gap: int, limit: int, n: int)
    requires
        0 <= n <= positions.len(),
        spaced_selection(positions, min_gap, limit, n).len() < limit,
    ensures
        ({
            let kept = spaced_selection(positions, min_gap, limit, n);
            forall|i: int|
                0 <= i < n && !kept.contains(i) ==> exists|j: int|
                    0 <= j < kept.len() && kept[j] < i && positions[kept[j]] - positions[i]
                        < min_gap && positions[i] - positions[kept[j]] < min_gap
        }),
{
    lemma_selection_maximal(positions, min_gap, limit, n);
    let kept = spaced_selection(positions, min_gap, limit, n);
    assert forall|i: int| 0 <= i < n && !kept.contains(i) implies exists|j: int|
        0 <= j < kept.len() && kept[j] < i && positions[kept[j]] - positions[i] < min_gap
            && positions[i] - positions[kept[j]] < min_gap by {
        let j = choose|j: int|
            0 <= j < kept.len() && kept[j] < i && gap(
                positions[kept[j]] as int,
                positions[i] as int,
            ) < min_gap;
        assert(positions[kept[j]] - positions[i] < min_gap && positions[i] - positions[kept[j]]
            < min_gap);
    }
}

/// Kept indices are increasing, below `n`, and pairwise at least `min_gap`
/// apart in position.
pub proof fn lemma_selection_spaced(positions: Seq<usize>, min_gap: int, limit: int, n: int)
    requires
        0 <= n <= positions.len(),
    ensures
        ({
            let kept = spaced_selection(positions, min_gap, limit, n);
            &&& forall|k: int| 0 <= k < kept.len() ==> 0 <= #[trigger] kept[k] < n
            &&& forall|j: int, k: int|
                0 <= j < k < kept.len() ==> #[trigger] kept[j] < #[trigger] kept[k]
            &&& forall|j: int, k: int|
                0 <= j < k < kept.len() ==> gap(
                    positions[#[trigger] kept[j]] as int,
                    positions[#[trigger] kept[k]] as int,
                ) >= min_gap
        }),
    decreases n,
{
    if n > 0 {
        lemma_selection_spaced(positions, min_gap, limit, n - 1);
        let prev = spaced_selection(positions, min_gap, limit, n - 1);
        let kept = spaced_selection(positions, min_gap, limit, n);
        if kept.len() > prev.len() {
            assert(kept == prev.push(n - 1));
            assert forall|j: int, k: int| 0 <= j < k < kept.len() implies gap(
                positions[#[trigger] kept[j]] as int,
                positions[#[trigger] kept[k]] as int,
            ) >= min_gap by {
                if k == kept.len() - 1 {
                    assert(far_from_kept(positions, prev, positions[n - 1] as int, min_gap));
                    assert(kept[j] == prev[j]);
                    assert(gap(positions[prev[j]] as int, positions[n - 1] as int) >= min_gap);
                } else {
                    assert(kept[j] == prev[j] && kept[k] == prev[k]);
                }
            }
        }
    }
}

/// At most `limit` candidates are kept (one when `limit` is zero).
pub proof fn lemma_selection_bound(positions: Seq<usize>, min_gap: int, limit: int, n: int)
    requires
        0 <= n,
    ensures
        spaced_selection(positions, min_gap, limit, n).len() <= if limit >= 1 {
            limit
        } else {
            1
        },
        spaced_selection(positions, min_gap, limit, n).len() <= n,
    decreases n,
{
    if n > 0 {
        lemma_selection_bound(positions, min_gap, limit, n - 1);
    }
}

/// As long as fewer than `limit` candidates are kept, every candidate among
/// the first `n` that is not kept lies closer than `min_gap` to a candidate
/// kept before it.
pub proof fn lemma_selection_maximal(positions: Seq<usize>, min_gap: int, limit: int, n: int)
    requires
        0 <= n <= positions.len(),
        spaced_selection(positions, min_gap, limit, n).len() < limit,
    ensures
        ({
            let kept = spaced_selection(positions, min_gap, limit, n);
            forall|i: int|
                0 <= i < n && !kept.contains(i) ==> exists|j: int|
                    0 <= j < kept.len() && kept[j] < i && gap(
                        positions[kept[j]] as int,
                        positions[i] as int,
                    ) < min_gap
        }),
    decreases n,
{
    if n > 0 {
        let prev = spaced_selection(positions, min_gap, limit, n - 1);
        let kept = spaced_selection(positions, min_gap, limit, n);
        lemma_selection_spaced(positions, min_gap, limit, n - 1);
        assert(prev.len() <= kept.len());
        lemma_selection_maximal(positions, min_gap, limit, n - 1);
        assert(kept == prev || kept == prev.push(n - 1));
        assert forall|i: int| 0 <= i < n && !kept.contains(i) implies exists|j: int|
            0 <= j < kept.len() && kept[j] < i && gap(
                positions[kept[j]] as int,
                positions[i] as int,
            ) < min_gap by {
            if i < n - 1 {
                if kept != prev {
                    assert(prev.contains(i) ==> kept.contains(i)) by {
                        if prev.contains(i) {
                            let t = choose|t: int| 0 <= t < prev.len() && prev[t] == i;
                            assert(kept[t] == i);
                        }
                    }
                }
                assert(!prev.contains(i));
                let j = choose|j: int|
                    0 <= j < prev.len() && prev[j] < i && gap(
                        positions[prev[j]] as int,
                        positions[i] as int,
                    ) < min_gap;
                assert(kept[j] == prev[j]);
            } else {
                assert(i == n - 1);
                if kept == prev.push(n - 1) {
                    assert(kept[kept.len() - 1] == i);
                }
                assert(!far_from_kept(positions, prev, positions[i] as int, min_gap));
                let j = choose|j: int|
                    0 <= j < prev.len() && !(gap(positions[prev[j]] as int, positions[i] as int)
                        >= min_gap);
                assert(kept[j] == prev[j]);
            }
        }
    }
}

} // verus!

//! Ranking the sites of a query by their distance.
//!
//! Distances are ranked in the total order of `Binary32::rank_key`, and two
//! sites at the same place in that order keep the order in which they were
//! enumerated. Both together leave exactly one ranking for any nine
//! distances.

use crate::binary32::Binary32;
use vstd::prelude::*;

verus! {

/// Whether site `a` comes before site `b` in the ranking: it is nearer, or as
/// near and enumerated earlier.
pub open spec fn stable_before(d: Seq<Binary32>, a: int, b: int) -> bool {
    d[a].rank_key() < d[b].rank_key() || (d[a].rank_key() == d[b].rank_key() && a < b)
}

/// Whether site `i` stands somewhere in `order`.
pub open spec fn occurs(order: Seq<usize>, i: int) -> bool {
    exists|p: int| 0 <= p < order.len() && #[trigger] order[p] == i
}

/// Whether `order` is the ranking of the distances `d`: it lists every site
/// once, each before all the sites that it comes before.
pub open spec fn is_ranking(d: Seq<Binary32>, order: Seq<usize>) -> bool {
    &&& order.len() == d.len()
    &&& forall|p: int| 0 <= p < order.len() ==> (#[trigger] order[p]) < d.len()
    &&& forall|p: int, q: int|
        0 <= p < q < order.len() ==> stable_before(
            d,
            #[trigger] order[p] as int,
            #[trigger] order[q] as int,
        )
    &&& forall|i: int| 0 <= i < d.len() ==> #[trigger] occurs(order, i)
}

/// Whether `n` is the nearest site: it comes before every other site.
pub open spec fn is_nearest(d: Seq<Binary32>, n: int) -> bool {
    &&& 0 <= n < d.len()
    &&& forall|i: int| 0 <= i < d.len() && i != n ==> #[trigger] stable_before(d, n, i)
}

/// The nearest site of the distances `d`.
pub open spec fn spec_nearest(d: Seq<Binary32>) -> int {
    choose|n: int| is_nearest(d, n)
}

/// No two sites are both the nearest.
pub proof fn nearest_is_unique(d: Seq<Binary32>, a: int, b: int)
    requires
        is_nearest(d, a),
        is_nearest(d, b),
    ensures
        a == b,
{
    if a != b {
        assert(stable_before(d, a, b));
        assert(stable_before(d, b, a));
    }
}

/// No site is nearer than the nearest: no distance compares less than its
/// distance, and none that is no NaN ranks behind a NaN.
pub proof fn nothing_is_nearer_than_nearest(d: Seq<Binary32>, n: int, i: int)
    requires
        is_nearest(d, n),
        0 <= i < d.len(),
    ensures
        !d[i].spec_lt(d[n]),
        d[n].spec_is_nan() ==> d[i].spec_is_nan(),
{
    if i != n {
        assert(stable_before(d, n, i));
    }
}

/// A ranking starts with the nearest site.
pub proof fn ranking_starts_with_nearest(d: Seq<Binary32>, order: Seq<usize>)
    requires
        is_ranking(d, order),
        d.len() > 0,
    ensures
        is_nearest(d, order[0] as int),
        order[0] == spec_nearest(d),
{
    let n = order[0] as int;
    assert forall|i: int| 0 <= i < d.len() && i != n implies #[trigger] stable_before(d, n, i) by {
        assert(occurs(order, i));
        let p = choose|p: int| 0 <= p < order.len() && #[trigger] order[p] == i;
        assert(stable_before(d, order[0] as int, order[p] as int));
    }
    nearest_is_unique(d, n, spec_nearest(d));
}

proof fn lemma_rankings_agree(d: Seq<Binary32>, o1: Seq<usize>, o2: Seq<usize>, p: int)
    requires
        is_ranking(d, o1),
        is_ranking(d, o2),
        0 <= p < d.len(),
    ensures
        forall|q: int| 0 <= q <= p ==> o1[q] == o2[q],
    decreases p,
{
    if p > 0 {
        lemma_rankings_agree(d, o1, o2, p - 1);
    }
    let a = o1[p] as int;
    let b = o2[p] as int;
    assert(occurs(o2, a));
    let p2 = choose|q: int| 0 <= q < o2.len() && #[trigger] o2[q] == a;
    assert(occurs(o1, b));
    let p1 = choose|q: int| 0 <= q < o1.len() && #[trigger] o1[q] == b;
    if p2 < p {
        assert(o1[p2] == o2[p2]);
        assert(stable_before(d, o1[p2] as int, o1[p] as int));
    }
    if p1 < p {
        assert(o1[p1] == o2[p1]);
        assert(stable_before(d, o2[p1] as int, o2[p] as int));
    }
    if p2 > p {
        assert(stable_before(d, o2[p] as int, o2[p2] as int));
    }
    if p1 > p {
        assert(stable_before(d, o1[p] as int, o1[p1] as int));
    }
}

/// Any nine distances have one ranking only: two orders that both rank the
/// same distances are equal.
pub proof fn ranking_is_unique(d: Seq<Binary32>, o1: Seq<usize>, o2: Seq<usize>)
    requires
        is_ranking(d, o1),
        is_ranking(d, o2),
    ensures
        o1 == o2,
{
    if d.len() > 0 {
        lemma_rankings_agree(d, o1, o2, d.len() - 1);
    }
    assert(o1 =~= o2);
}

/// Ranks the nine sites of a query by their distances.
pub fn rank_sites(d: &[Binary32; 9]) -> (order: [usize; 9])
    ensures
        is_ranking(d@, order@),
{
    let mut order = [0usize; 9];
    let ghost mut pos: Seq<int> = Seq::new(9, |i: int| 0int);
    let mut k: usize = 0;
    while k < 9
        invariant
            k <= 9,
            pos.len() == 9,
            forall|p: int| 0 <= p < k ==> (#[trigger] order@[p]) < k,
            forall|p: int, q: int|
                0 <= p < q < k ==> stable_before(
                    d@,
                    #[trigger] order@[p] as int,
                    #[trigger] order@[q] as int,
                ),
            forall|i: int| 0 <= i < k ==> 0 <= #[trigger] pos[i] < k && order@[pos[i]] == i,
        decreases 9 - k,
    {
        let key = d[k].total_key();
        let ghost prev = order@;
        let ghost prev_pos = pos;
        let mut j: usize = k;
        while j > 0 && key < d[order[j - 1]].total_key()
            invariant
                j <= k < 9,
                key == d@[k as int].rank_key(),
                forall|p: int| 0 <= p < k ==> (#[trigger] prev[p]) < k,
                forall|p: int, q: int|
                    0 <= p < q < k ==> stable_before(
                        d@,
                        #[trigger] prev[p] as int,
                        #[trigger] prev[q] as int,
                    ),
                forall|p: int| 0 <= p < j ==> #[trigger] order@[p] == prev[p],
                forall|p: int| j < p <= k ==> #[trigger] order@[p] == prev[p - 1],
                forall|p: int| j <= p < k ==> key < d@[#[trigger] prev[p] as int].rank_key(),
            decreases j,
        {
            order[j] = order[j - 1];
            j -= 1;
        }
        order[j] = k;
        proof {
            pos = Seq::new(
                9,
                |i: int|
                    if i == k {
                        j as int
                    } else if prev_pos[i] < j {
                        prev_pos[i]
                    } else {
                        prev_pos[i] + 1
                    },
            );
            assert forall|p: int, q: int| 0 <= p < q < k + 1 implies stable_before(
                d@,
                #[trigger] order@[p] as int,
                #[trigger] order@[q] as int,
            ) by {
                if q < j {
                    assert(order@[p] == prev[p] && order@[q] == prev[q]);
                } else if q == j {
                    assert(order@[p] == prev[p]);
                    if p < j - 1 {
                        assert(stable_before(d@, prev[p] as int, prev[j - 1] as int));
                    }
                } else if p < j {
                    assert(order@[p] == prev[p] && order@[q] == prev[q - 1]);
                } else if p == j {
                    assert(order@[q] == prev[q - 1]);
                } else {
                    assert(order@[p] == prev[p - 1] && order@[q] == prev[q - 1]);
                }
            }
            assert forall|i: int| 0 <= i < k + 1 implies 0 <= #[trigger] pos[i] < k + 1 && order@[pos[i]]
                == i by {
                if i < k {
                    assert(0 <= prev_pos[i] < k && prev[prev_pos[i]] == i);
                }
            }
        }
        k += 1;
    }
    proof {
        assert forall|i: int| 0 <= i < 9 implies #[trigger] occurs(order@, i) by {
            assert(order@[pos[i]] == i);
        }
    }
    order
}

/// The nearest of the nine sites of a query: the first of its ranking.
pub fn nearest_site(d: &[Binary32; 9]) -> (n: usize)
    ensures
        is_nearest(d@, n as int),
        n == spec_nearest(d@),
{
    let order = rank_sites(d);
    proof {
        ranking_starts_with_nearest(d@, order@);
    }
    order[0]
}

} // verus!

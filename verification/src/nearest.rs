//! Choosing, among candidate vectors, the one nearest to a point.

use vstd::prelude::*;
use crate::error::KMeansError;
use crate::scalar::Scalar;
use crate::vector::{all_of_length, grid, uniform, Coordinates, Metric};

verus! {

/// `i` is the index of the candidate nearest to `v`: no candidate is strictly
/// nearer, and every candidate before it is strictly farther. Among candidates
/// at the same smallest distance this is the first one.
pub open spec fn is_closest<T: Scalar, D: Metric<T>>(
    dist: &D,
    v: Coordinates<T>,
    locations: Seq<Coordinates<T>>,
    i: int,
) -> bool {
    &&& 0 <= i < locations.len()
    &&& forall|j: int|
        0 <= j < locations.len() ==> !dist.measure(v, #[trigger] locations[j]).precedes(
            dist.measure(v, locations[i]),
        )
    &&& forall|j: int|
        0 <= j < i ==> dist.measure(v, locations[i]).precedes(
            dist.measure(v, #[trigger] locations[j]),
        )
}

/// The index of the candidate nearest to `v`, as `is_closest` defines it.
pub open spec fn nearest<T: Scalar, D: Metric<T>>(
    dist: &D,
    v: Coordinates<T>,
    locations: Seq<Coordinates<T>>,
) -> int {
    choose|i: int| is_closest(dist, v, locations, i)
}

/// At most one index is the closest: two calls on the same point and
/// candidates cannot disagree.
pub proof fn closest_is_unique<T: Scalar, D: Metric<T>>(
    dist: &D,
    v: Coordinates<T>,
    locations: Seq<Coordinates<T>>,
    i: int,
    j: int,
)
    requires
        is_closest(dist, v, locations, i),
        is_closest(dist, v, locations, j),
    ensures
        i == j,
{
    if i < j {
        assert(dist.measure(v, locations[j]).precedes(dist.measure(v, locations[i])));
        assert(!dist.measure(v, locations[j]).precedes(dist.measure(v, locations[i])));
    } else if j < i {
        assert(dist.measure(v, locations[i]).precedes(dist.measure(v, locations[j])));
        assert(!dist.measure(v, locations[i]).precedes(dist.measure(v, locations[j])));
    }
}

/// Among any candidates at all, some index is the closest, and `nearest`
/// names it.
pub proof fn nearest_is_closest<T: Scalar, D: Metric<T>>(
    dist: &D,
    v: Coordinates<T>,
    locations: Seq<Coordinates<T>>,
)
    requires
        locations.len() > 0,
    ensures
        is_closest(dist, v, locations, nearest(dist, v, locations)),
    decreases locations.len(),
{
    let last = locations.len() - 1;
    if last == 0 {
        T::precedes_irreflexive(dist.measure(v, locations[0]));
        assert(is_closest(dist, v, locations, 0));
    } else {
        let front = locations.drop_last();
        nearest_is_closest(dist, v, front);
        let b = nearest(dist, v, front);
        assert(forall|j: int| 0 <= j < last ==> front[j] == locations[j]);
        let w = if dist.measure(v, locations[last]).precedes(dist.measure(v, locations[b])) {
            last
        } else {
            b
        };
        closest_extends(dist, v, locations, b);
        assert(is_closest(dist, v, locations, w));
    }
}

/// Extending the candidates by one: the closest index stays unless the new
/// candidate is strictly nearer, in which case it is the new one.
proof fn closest_extends<T: Scalar, D: Metric<T>>(
    dist: &D,
    v: Coordinates<T>,
    locations: Seq<Coordinates<T>>,
    b: int,
)
    requires
        locations.len() > 1,
        is_closest(dist, v, locations.drop_last(), b),
    ensures
        is_closest(
            dist,
            v,
            locations,
            if dist.measure(v, locations.last()).precedes(dist.measure(v, locations[b])) {
                locations.len() - 1
            } else {
                b
            },
        ),
{
    let last = locations.len() - 1;
    let front = locations.drop_last();
    let d_last = dist.measure(v, locations[last]);
    let d_b = dist.measure(v, locations[b]);
    assert(front[b] == locations[b]);
    if d_last.precedes(d_b) {
        assert forall|j: int| 0 <= j < locations.len() implies !dist.measure(
            v,
            #[trigger] locations[j],
        ).precedes(d_last) by {
            if j < last {
                assert(front[j] == locations[j]);
                if dist.measure(v, locations[j]).precedes(d_last) {
                    T::precedes_transitive(dist.measure(v, locations[j]), d_last, d_b);
                }
            } else {
                T::precedes_irreflexive(d_last);
            }
        }
        assert forall|j: int| 0 <= j < last implies d_last.precedes(
            dist.measure(v, #[trigger] locations[j]),
        ) by {
            assert(front[j] == locations[j]);
            T::precedes_splits(d_last, d_b, dist.measure(v, locations[j]));
        }
    } else {
        assert forall|j: int| 0 <= j < locations.len() implies !dist.measure(
            v,
            #[trigger] locations[j],
        ).precedes(d_b) by {
            if j < last {
                assert(front[j] == locations[j]);
            }
        }
        assert forall|j: int| 0 <= j < b implies d_b.precedes(
            dist.measure(v, #[trigger] locations[j]),
        ) by {
            assert(front[j] == locations[j]);
        }
    }
}

/// The nearest of candidates that are known to be measurable.
pub(crate) fn closest_among<T: Scalar, D: Metric<T>>(
    v: &Vec<T>,
    locations: &Vec<Vec<T>>,
    dist: &D,
) -> (best: usize)
    requires
        locations.len() > 0,
        uniform(grid(locations@), v@.len()),
    ensures
        is_closest(dist, v@, grid(locations@), best as int),
        best == nearest(dist, v@, grid(locations@)),
{
    let ghost cands = grid(locations@);
    let mut best: usize = 0;
    assert(cands[0].len() == v@.len());
    let mut best_dist: T = dist.distance(v, &locations[0]);
    let mut j: usize = 1;
    proof {
        assert(cands.take(1)[0] == cands[0]);
        T::precedes_irreflexive(best_dist);
        assert(is_closest(dist, v@, cands.take(1), 0));
    }
    while j < locations.len()
        invariant
            1 <= j <= locations.len(),
            cands == grid(locations@),
            uniform(cands, v@.len()),
            best < j,
            best_dist == dist.measure(v@, cands[best as int]),
            is_closest(dist, v@, cands.take(j as int), best as int),
        decreases locations.len() - j,
    {
        assert(cands[j as int].len() == v@.len());
        let d: T = dist.distance(v, &locations[j]);
        proof {
            let next = cands.take(j + 1);
            assert(next.drop_last() =~= cands.take(j as int));
            assert(next[best as int] == cands[best as int]);
            assert(next.last() == cands[j as int]);
            closest_extends(dist, v@, next, best as int);
        }
        if d.less(best_dist) {
            best = j;
            best_dist = d;
        }
        j = j + 1;
    }
    proof {
        assert(cands.take(j as int) =~= cands);
        nearest_is_closest(dist, v@, cands);
        closest_is_unique(dist, v@, cands, best as int, nearest(dist, v@, cands));
    }
    best
}

/// Finds the candidate nearest to `v` under `dist`.
///
/// With no candidates there is nothing to choose from, and a candidate whose
/// length differs from that of `v` cannot be measured; both are refused.
/// Otherwise the result is the first index at the smallest distance.
pub fn closest_index<T: Scalar, D: Metric<T>>(
    v: &Vec<T>,
    locations: &Vec<Vec<T>>,
    dist: &D,
) -> (r: Result<usize, KMeansError>)
    ensures
        match r {
            Ok(i) => {
                &&& locations.len() > 0
                &&& uniform(grid(locations@), v@.len())
                &&& is_closest(dist, v@, grid(locations@), i as int)
                &&& i == nearest(dist, v@, grid(locations@))
            },
            Err(e) => if locations.len() == 0 {
                e == KMeansError::EmptyCandidates
            } else {
                !uniform(grid(locations@), v@.len()) && e == KMeansError::DimensionMismatch
            },
        },
{
    if locations.len() == 0 {
        return Err(KMeansError::EmptyCandidates);
    }
    if !all_of_length(locations, v.len()) {
        return Err(KMeansError::DimensionMismatch);
    }
    Ok(closest_among(v, locations, dist))
}

} // verus!

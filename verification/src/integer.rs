//! Whole numbers as scalars, and what clustering computes on them in terms
//! of ordinary integer arithmetic.

use vstd::prelude::*;
use crate::recenter::{mean, total};
use crate::scalar::Scalar;
use crate::vector::{squared_distance, uniform};

verus! {

/// The integer nearest to `x` that fits in 64 signed bits.
pub open spec fn saturate(x: int) -> i64 {
    if x < i64::MIN {
        i64::MIN
    } else if x > i64::MAX {
        i64::MAX
    } else {
        x as i64
    }
}

/// `x` divided by the positive `d`, rounded toward zero.
pub open spec fn toward_zero(x: int, d: int) -> int {
    if x >= 0 {
        x / d
    } else {
        -((-x) / d)
    }
}

fn saturating(x: i128) -> (r: i64)
    ensures
        r == saturate(x as int),
{
    if x < -0x8000_0000_0000_0000i128 {
        i64::MIN
    } else if x > 0x7fff_ffff_ffff_ffffi128 {
        i64::MAX
    } else {
        x as i64
    }
}

/// Whole numbers on 64 signed bits. Sums, differences and products that leave
/// the range stop at its nearest end; division by a count rounds toward zero.
impl Scalar for i64 {
    open spec fn zero() -> i64 {
        0
    }

    open spec fn sum(self, rhs: i64) -> i64 {
        saturate(self + rhs)
    }

    open spec fn difference(self, rhs: i64) -> i64 {
        saturate(self - rhs)
    }

    open spec fn product(self, rhs: i64) -> i64 {
        saturate(self * rhs)
    }

    open spec fn quotient(self, count: usize) -> i64 {
        saturate(toward_zero(self as int, count as int))
    }

    open spec fn precedes(self, rhs: i64) -> bool {
        self < rhs
    }

    proof fn precedes_irreflexive(a: i64) {
    }

    proof fn precedes_transitive(a: i64, b: i64, c: i64) {
    }

    proof fn precedes_splits(a: i64, b: i64, c: i64) {
    }

    fn origin() -> (r: i64) {
        0
    }

    fn plus(self, rhs: i64) -> (r: i64) {
        saturating(self as i128 + rhs as i128)
    }

    fn minus(self, rhs: i64) -> (r: i64) {
        saturating(self as i128 - rhs as i128)
    }

    fn times(self, rhs: i64) -> (r: i64) {
        assert(-0x4000_0000_0000_0000_0000_0000_0000_0000 <= self * rhs
            <= 0x4000_0000_0000_0000_0000_0000_0000_0000) by (nonlinear_arith)
            requires
                -0x8000_0000_0000_0000 <= self <= 0x7fff_ffff_ffff_ffff,
                -0x8000_0000_0000_0000 <= rhs <= 0x7fff_ffff_ffff_ffff,
        ;
        saturating(self as i128 * rhs as i128)
    }

    fn shared(self, count: usize) -> (r: i64) {
        let d: u128 = count as u128;
        if self >= 0 {
            let q: u128 = (self as u128) / d;
            saturating(q as i128)
        } else {
            let m: u128 = (-(self as i128)) as u128;
            let q: u128 = m / d;
            saturating(-(q as i128))
        }
    }

    fn less(self, rhs: i64) -> (r: bool) {
        self < rhs
    }
}

/// The squared Euclidean distance of two integer vectors as a mathematical
/// integer, however large.
pub open spec fn exact_squared_distance(a: Seq<i64>, b: Seq<i64>) -> int
    decreases a.len(),
{
    if a.len() == 0 {
        0
    } else {
        exact_squared_distance(a.drop_last(), b.drop_last()) + (a.last() - b.last()) * (a.last()
            - b.last())
    }
}

/// Coordinate `c` of the sum of `points` as a mathematical integer.
pub open spec fn exact_total(points: Seq<Seq<i64>>, c: int) -> int
    decreases points.len(),
{
    if points.len() == 0 {
        0
    } else {
        exact_total(points.drop_last(), c) + points.last()[c]
    }
}

proof fn square_is_capped(d: int)
    ensures
        saturate(saturate(d) * saturate(d)) == if d * d > i64::MAX {
            i64::MAX as int
        } else {
            d * d
        },
        d * d >= 0,
{
    assert(d * d >= 0) by (nonlinear_arith);
    if d > i64::MAX {
        assert(d * d > i64::MAX) by (nonlinear_arith)
            requires
                d > 0x7fff_ffff_ffff_ffff,
        ;
        assert(0x7fff_ffff_ffff_ffffint * 0x7fff_ffff_ffff_ffffint > 0x7fff_ffff_ffff_ffff)
            by (nonlinear_arith);
    } else if d < i64::MIN {
        assert(d * d > i64::MAX) by (nonlinear_arith)
            requires
                d < -0x8000_0000_0000_0000,
        ;
        assert((-0x8000_0000_0000_0000int) * (-0x8000_0000_0000_0000int) > 0x7fff_ffff_ffff_ffff)
            by (nonlinear_arith);
    }
}

/// On integers the squared distance is the true squared Euclidean distance
/// wherever that fits in 64 signed bits, and the largest such number where it
/// does not.
pub proof fn integer_distance_is_exact_or_capped(a: Seq<i64>, b: Seq<i64>)
    requires
        a.len() == b.len(),
    ensures
        0 <= exact_squared_distance(a, b),
        squared_distance(a, b) == if exact_squared_distance(a, b) > i64::MAX {
            i64::MAX as int
        } else {
            exact_squared_distance(a, b)
        },
    decreases a.len(),
{
    if a.len() > 0 {
        integer_distance_is_exact_or_capped(a.drop_last(), b.drop_last());
        square_is_capped(a.last() - b.last());
    }
}

/// Where `count` vectors have coordinate `c` within `bound` of zero and
/// `count * bound` fits in 64 signed bits, no partial sum leaves the range:
/// the total is the true sum.
pub proof fn integer_total_is_exact(points: Seq<Seq<i64>>, n: nat, c: int, bound: int)
    requires
        uniform(points, n),
        0 <= c < n,
        0 <= bound,
        forall|i: int| 0 <= i < points.len() ==> -bound <= (#[trigger] points[i])[c] <= bound,
        points.len() * bound <= i64::MAX,
    ensures
        total(points, n).len() == n,
        total(points, n)[c] == exact_total(points, c),
        -(points.len() * bound) <= exact_total(points, c) <= points.len() * bound,
    decreases points.len(),
{
    crate::recenter::total_has_dimension(points, n);
    if points.len() > 0 {
        let front = points.drop_last();
        assert(front.len() * bound + bound == points.len() * bound) by (nonlinear_arith)
            requires
                front.len() + 1 == points.len(),
        ;
        assert(front.len() * bound >= 0) by (nonlinear_arith)
            requires
                bound >= 0,
                front.len() >= 0,
        ;
        assert forall|i: int| 0 <= i < front.len() implies -bound <= (#[trigger] front[i])[c]
            <= bound by {
            assert(front[i] == points[i]);
        }
        assert forall|i: int| 0 <= i < front.len() implies (#[trigger] front[i]).len() == n by {
            assert(front[i] == points[i]);
        }
        integer_total_is_exact(front, n, c, bound);
        assert(-bound <= points[points.len() - 1][c] <= bound);
    } else {
        assert(points.len() * bound == 0) by (nonlinear_arith)
            requires
                points.len() == 0,
        ;
    }
}

/// Under the same bound, the mean of at least one vector is the true sum
/// divided by the number of vectors, rounded toward zero.
pub proof fn integer_mean_is_exact(points: Seq<Seq<i64>>, n: nat, c: int, bound: int)
    requires
        0 < points.len() <= usize::MAX,
        uniform(points, n),
        0 <= c < n,
        0 <= bound,
        forall|i: int| 0 <= i < points.len() ==> -bound <= (#[trigger] points[i])[c] <= bound,
        points.len() * bound <= i64::MAX,
    ensures
        mean(points, n)[c] == toward_zero(exact_total(points, c), points.len() as int),
{
    integer_total_is_exact(points, n, c, bound);
    let x = exact_total(points, c);
    let d = points.len() as int;
    if x >= 0 {
        assert(0 <= x / d <= x) by (nonlinear_arith)
            requires
                x >= 0,
                d >= 1,
        ;
    } else {
        assert(0 <= (-x) / d <= -x) by (nonlinear_arith)
            requires
                -x >= 0,
                d >= 1,
        ;
    }
}

} // verus!

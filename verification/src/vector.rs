//! Vectors of scalars: elementwise sum, squared Euclidean distance, and the
//! interface of a distance measure.

use vstd::prelude::*;
use crate::error::KMeansError;
use crate::scalar::Scalar;

verus! {

/// The mathematical model of a vector: the sequence of its coordinates.
pub type Coordinates<T> = Seq<T>;

/// The model of a list of vectors, one coordinate sequence for each.
pub open spec fn grid<T>(rows: Seq<Vec<T>>) -> Seq<Coordinates<T>> {
    Seq::new(rows.len(), |i: int| rows[i]@)
}

/// Every vector of `rows` has exactly `n` coordinates.
pub open spec fn uniform<T>(rows: Seq<Coordinates<T>>, n: nat) -> bool {
    forall|i: int| 0 <= i < rows.len() ==> (#[trigger] rows[i]).len() == n
}

/// The vector whose coordinates are the sums of the matching coordinates of
/// `a` and `b`.
pub open spec fn pairwise_sum<T: Scalar>(a: Coordinates<T>, b: Coordinates<T>) -> Coordinates<T> {
    Seq::new(a.len(), |i: int| a[i].sum(b[i]))
}

/// The squared differences of matching coordinates, summed from the first
/// coordinate to the last, starting at zero.
pub open spec fn squared_distance<T: Scalar>(a: Coordinates<T>, b: Coordinates<T>) -> T
    decreases a.len(),
{
    if a.len() == 0 {
        T::zero()
    } else {
        let gap = a.last().difference(b.last());
        squared_distance(a.drop_last(), b.drop_last()).sum(gap.product(gap))
    }
}

/// A distance measure between vectors of equal length.
///
/// A measure is a pure function of the two coordinate sequences: `distance`
/// computes `measure` and nothing else decides its result.
pub trait Metric<T: Scalar> {
    /// The distance between `a` and `b`.
    spec fn measure(&self, a: Coordinates<T>, b: Coordinates<T>) -> T;

    /// Computes `measure` on two vectors of equal length.
    fn distance(&self, a: &Vec<T>, b: &Vec<T>) -> (r: T)
        requires
            a.len() == b.len(),
        ensures
            r == self.measure(a@, b@),
    ;
}

/// The squared Euclidean distance, the measure used where none is supplied.
pub struct SquaredEuclidean;

impl<T: Scalar> Metric<T> for SquaredEuclidean {
    open spec fn measure(&self, a: Coordinates<T>, b: Coordinates<T>) -> T {
        squared_distance(a, b)
    }

    fn distance(&self, a: &Vec<T>, b: &Vec<T>) -> (r: T) {
        sum_of_squares(a, b)
    }
}

fn sum_of_squares<T: Scalar>(v1: &Vec<T>, v2: &Vec<T>) -> (r: T)
    requires
        v1.len() == v2.len(),
    ensures
        r == squared_distance(v1@, v2@),
{
    let mut acc: T = T::origin();
    let mut i: usize = 0;
    while i < v1.len()
        invariant
            i <= v1.len(),
            v1.len() == v2.len(),
            acc == squared_distance(v1@.take(i as int), v2@.take(i as int)),
        decreases v1.len() - i,
    {
        let gap: T = v1[i].minus(v2[i]);
        proof {
            assert(v1@.take(i + 1).drop_last() =~= v1@.take(i as int));
            assert(v2@.take(i + 1).drop_last() =~= v2@.take(i as int));
        }
        acc = acc.plus(gap.times(gap));
        i = i + 1;
    }
    proof {
        assert(v1@.take(i as int) =~= v1@);
        assert(v2@.take(i as int) =~= v2@);
    }
    acc
}

/// Whether every vector of `rows` has exactly `n` coordinates.
pub fn all_of_length<T>(rows: &Vec<Vec<T>>, n: usize) -> (r: bool)
    ensures
        r == uniform(grid(rows@), n as nat),
{
    let mut i: usize = 0;
    while i < rows.len()
        invariant
            i <= rows.len(),
            forall|q: int| 0 <= q < i ==> (#[trigger] grid(rows@)[q]).len() == n,
        decreases rows.len() - i,
    {
        if rows[i].len() != n {
            assert(grid(rows@)[i as int].len() != n);
            return false;
        }
        i = i + 1;
    }
    true
}

pub(crate) fn sum_of<T: Scalar>(v1: &Vec<T>, v2: &Vec<T>) -> (out: Vec<T>)
    requires
        v1.len() == v2.len(),
    ensures
        out@ == pairwise_sum(v1@, v2@),
{
    let mut out: Vec<T> = Vec::new();
    let mut i: usize = 0;
    while i < v1.len()
        invariant
            i <= v1.len(),
            v1.len() == v2.len(),
            out.len() == i,
            forall|c: int| 0 <= c < i ==> out@[c] == v1@[c].sum(v2@[c]),
        decreases v1.len() - i,
    {
        out.push(v1[i].plus(v2[i]));
        i = i + 1;
    }
    proof {
        assert(out@ =~= pairwise_sum(v1@, v2@));
    }
    out
}

/// Adds two vectors coordinate by coordinate.
///
/// Vectors of different lengths are refused; nothing is truncated or padded.
pub fn add<T: Scalar>(v1: &Vec<T>, v2: &Vec<T>) -> (r: Result<Vec<T>, KMeansError>)
    ensures
        match r {
            Ok(v) => v1.len() == v2.len() && v@ == pairwise_sum(v1@, v2@),
            Err(e) => v1.len() != v2.len() && e == KMeansError::DimensionMismatch,
        },
{
    if v1.len() != v2.len() {
        return Err(KMeansError::DimensionMismatch);
    }
    Ok(sum_of(v1, v2))
}

/// The squared Euclidean distance between two vectors.
///
/// Vectors of different lengths are refused; nothing is truncated or padded.
pub fn dist_sq<T: Scalar>(v1: &Vec<T>, v2: &Vec<T>) -> (r: Result<T, KMeansError>)
    ensures
        match r {
            Ok(d) => v1.len() == v2.len() && d == squared_distance(v1@, v2@),
            Err(e) => v1.len() != v2.len() && e == KMeansError::DimensionMismatch,
        },
{
    if v1.len() != v2.len() {
        return Err(KMeansError::DimensionMismatch);
    }
    Ok(sum_of_squares(v1, v2))
}

} // verus!

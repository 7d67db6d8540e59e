//! One step of the iteration: every point joins the bucket of its nearest
//! centroid, and every centroid moves to the mean of its bucket.

use vstd::prelude::*;
use crate::error::KMeansError;
use crate::nearest::{closest_among, nearest, nearest_is_closest};
use crate::scalar::Scalar;
use crate::vector::{all_of_length, grid, pairwise_sum, sum_of, uniform, Coordinates, Metric};

verus! {

/// The test that a point belongs to centroid `j`: `j` is the index of its
/// nearest centroid.
pub open spec fn assigned_to<T: Scalar, D: Metric<T>>(
    dist: &D,
    centroids: Seq<Coordinates<T>>,
    j: int,
) -> spec_fn(Coordinates<T>) -> bool {
    |p: Coordinates<T>| nearest(dist, p, centroids) == j
}

/// The points of `data` whose nearest centroid is `j`, in the order of `data`.
pub open spec fn bucket<T: Scalar, D: Metric<T>>(
    dist: &D,
    data: Seq<Coordinates<T>>,
    centroids: Seq<Coordinates<T>>,
    j: int,
) -> Seq<Coordinates<T>> {
    data.filter(assigned_to(dist, centroids, j))
}

/// The vector of `n` zeros.
pub open spec fn origin_vector<T: Scalar>(n: nat) -> Coordinates<T> {
    Seq::new(n, |c: int| T::zero())
}

/// The sum of `points`, added one after another onto the vector of `n` zeros.
pub open spec fn total<T: Scalar>(points: Seq<Coordinates<T>>, n: nat) -> Coordinates<T>
    decreases points.len(),
{
    if points.len() == 0 {
        origin_vector(n)
    } else {
        pairwise_sum(total(points.drop_last(), n), points.last())
    }
}

/// Each coordinate of `v` divided by `count`.
pub open spec fn divided<T: Scalar>(v: Coordinates<T>, count: usize) -> Coordinates<T> {
    Seq::new(v.len(), |c: int| v[c].quotient(count))
}

/// The arithmetic mean of `points`: their total divided by their number.
pub open spec fn mean<T: Scalar>(points: Seq<Coordinates<T>>, n: nat) -> Coordinates<T> {
    divided(total(points, n), points.len() as usize)
}

/// Where centroid `j` stands after the step: at the mean of its bucket, or
/// where it stood before if no point was assigned to it.
pub open spec fn new_centroid<T: Scalar, D: Metric<T>>(
    dist: &D,
    data: Seq<Coordinates<T>>,
    centroids: Seq<Coordinates<T>>,
    n: nat,
    j: int,
) -> Coordinates<T> {
    let members = bucket(dist, data, centroids, j);
    if members.len() == 0 {
        centroids[j]
    } else {
        mean(members, n)
    }
}

/// The outcome of one step on `data` from `centroids`, all of dimension `n`.
///
/// Points cannot be assigned when there are no centroids, and a centroid or
/// point whose length is not `n` cannot be measured or summed. Otherwise the
/// new centroids stand in the order of the old ones.
pub open spec fn recenter<T: Scalar, D: Metric<T>>(
    dist: &D,
    data: Seq<Coordinates<T>>,
    centroids: Seq<Coordinates<T>>,
    n: nat,
) -> Result<Seq<Coordinates<T>>, KMeansError> {
    if data.len() > 0 && centroids.len() == 0 {
        Err(KMeansError::EmptyCandidates)
    } else if !uniform(centroids, n) || !uniform(data, n) {
        Err(KMeansError::DimensionMismatch)
    } else {
        Ok(Seq::new(centroids.len(), |j: int| new_centroid(dist, data, centroids, n, j)))
    }
}

/// The model of a result that holds a list of vectors.
pub open spec fn outcome<T>(r: Result<Vec<Vec<T>>, KMeansError>) -> Result<
    Seq<Coordinates<T>>,
    KMeansError,
> {
    match r {
        Ok(rows) => Ok(grid(rows@)),
        Err(e) => Err(e),
    }
}

/// With at least one centroid, every point is assigned to one centroid that
/// exists, and is found in that centroid's bucket.
pub proof fn every_point_has_a_bucket<T: Scalar, D: Metric<T>>(
    dist: &D,
    data: Seq<Coordinates<T>>,
    centroids: Seq<Coordinates<T>>,
    i: int,
)
    requires
        centroids.len() > 0,
        0 <= i < data.len(),
    ensures
        0 <= nearest(dist, data[i], centroids) < centroids.len(),
        bucket(dist, data, centroids, nearest(dist, data[i], centroids)).contains(data[i]),
{
    nearest_is_closest(dist, data[i], centroids);
    let j = nearest(dist, data[i], centroids);
    assert(assigned_to(dist, centroids, j)(data[i]));
    data.lemma_filter_contains(assigned_to(dist, centroids, j), i);
}

proof fn bucket_of_prefix<T: Scalar, D: Metric<T>>(
    dist: &D,
    data: Seq<Coordinates<T>>,
    centroids: Seq<Coordinates<T>>,
    j: int,
    i: int,
)
    requires
        0 <= i < data.len(),
    ensures
        bucket(dist, data.take(i + 1), centroids, j) == if nearest(dist, data[i], centroids) == j {
            bucket(dist, data.take(i), centroids, j).push(data[i])
        } else {
            bucket(dist, data.take(i), centroids, j)
        },
        bucket(dist, data.take(i), centroids, j).len() <= i,
{
    reveal(Seq::filter);
    assert(data.take(i + 1).drop_last() =~= data.take(i));
    data.take(i).lemma_filter_len(assigned_to(dist, centroids, j));
}

/// A total over dimension `n` has `n` coordinates, whatever was summed.
pub proof fn total_has_dimension<T: Scalar>(points: Seq<Coordinates<T>>, n: nat)
    ensures
        total(points, n).len() == n,
    decreases points.len(),
{
    if points.len() > 0 {
        total_has_dimension(points.drop_last(), n);
    }
}

proof fn total_of_push<T: Scalar>(points: Seq<Coordinates<T>>, p: Coordinates<T>, n: nat)
    ensures
        total(points.push(p), n) == pairwise_sum(total(points, n), p),
{
    assert(points.push(p).drop_last() =~= points);
}

fn zeros<T: Scalar>(n: usize) -> (out: Vec<T>)
    ensures
        out@ == origin_vector::<T>(n as nat),
{
    let mut out: Vec<T> = Vec::new();
    let mut c: usize = 0;
    while c < n
        invariant
            c <= n,
            out.len() == c,
            forall|q: int| 0 <= q < c ==> out@[q] == T::zero(),
        decreases n - c,
    {
        out.push(T::origin());
        c = c + 1;
    }
    proof {
        assert(out@ =~= origin_vector::<T>(n as nat));
    }
    out
}

fn duplicate<T: Copy>(v: &Vec<T>) -> (out: Vec<T>)
    ensures
        out@ == v@,
{
    let mut out: Vec<T> = Vec::new();
    let mut c: usize = 0;
    while c < v.len()
        invariant
            c <= v.len(),
            out.len() == c,
            forall|q: int| 0 <= q < c ==> out@[q] == v@[q],
        decreases v.len() - c,
    {
        out.push(v[c]);
        c = c + 1;
    }
    proof {
        assert(out@ =~= v@);
    }
    out
}

fn scaled<T: Scalar>(v: &Vec<T>, count: usize) -> (out: Vec<T>)
    requires
        count > 0,
    ensures
        out@ == divided(v@, count),
{
    let mut out: Vec<T> = Vec::new();
    let mut c: usize = 0;
    while c < v.len()
        invariant
            count > 0,
            c <= v.len(),
            out.len() == c,
            forall|q: int| 0 <= q < c ==> out@[q] == v@[q].quotient(count),
        decreases v.len() - c,
    {
        out.push(v[c].shared(count));
        c = c + 1;
    }
    proof {
        assert(out@ =~= divided(v@, count));
    }
    out
}

/// Assigns every point of `data` to its nearest centroid and returns, for
/// each centroid in turn, the mean of the points assigned to it.
///
/// A centroid that no point was assigned to is returned where it stood. The
/// result has as many centroids as were given, and the centroid at an index
/// gathers exactly the points that were nearest to the old centroid at that
/// index.
pub fn bucket_and_center<T: Scalar, D: Metric<T>>(
    data: &Vec<Vec<T>>,
    centroids: &Vec<Vec<T>>,
    n: usize,
    dist: &D,
) -> (r: Result<Vec<Vec<T>>, KMeansError>)
    ensures
        outcome(r) == recenter(dist, grid(data@), grid(centroids@), n as nat),
        r is Ok ==> r.unwrap().len() == centroids.len(),
{
    if data.len() > 0 && centroids.len() == 0 {
        return Err(KMeansError::EmptyCandidates);
    }
    if !all_of_length(centroids, n) || !all_of_length(data, n) {
        return Err(KMeansError::DimensionMismatch);
    }
    let ghost pts = grid(data@);
    let ghost cents = grid(centroids@);
    let k: usize = centroids.len();
    let mut sums: Vec<Vec<T>> = Vec::new();
    let mut counts: Vec<usize> = Vec::new();
    let mut j: usize = 0;
    while j < k
        invariant
            j <= k,
            sums.len() == j,
            counts.len() == j,
            forall|q: int| 0 <= q < j ==> (#[trigger] sums@[q])@ == origin_vector::<T>(n as nat),
            forall|q: int| 0 <= q < j ==> #[trigger] counts@[q] == 0,
        decreases k - j,
    {
        sums.push(zeros(n));
        counts.push(0);
        j = j + 1;
    }
    let mut i: usize = 0;
    proof {
        reveal(Seq::filter);
        assert(pts.take(0) =~= Seq::<Coordinates<T>>::empty());
    }
    while i < data.len()
        invariant
            i <= data.len(),
            pts == grid(data@),
            cents == grid(centroids@),
            k == centroids.len(),
            data.len() > 0 ==> k > 0,
            uniform(pts, n as nat),
            uniform(cents, n as nat),
            sums.len() == k,
            counts.len() == k,
            forall|q: int|
                0 <= q < k ==> (#[trigger] sums@[q])@ == total(
                    bucket(dist, pts.take(i as int), cents, q),
                    n as nat,
                ),
            forall|q: int|
                0 <= q < k ==> #[trigger] counts@[q] == bucket(
                    dist,
                    pts.take(i as int),
                    cents,
                    q,
                ).len(),
        decreases data.len() - i,
    {
        let point: &Vec<T> = &data[i];
        assert(point@ == pts[i as int]);
        let index: usize = closest_among(point, centroids, dist);
        proof {
            assert forall|q: int| 0 <= q < k implies {
                &&& bucket(dist, pts.take(i + 1), cents, q) == if q == index {
                    bucket(dist, pts.take(i as int), cents, q).push(point@)
                } else {
                    bucket(dist, pts.take(i as int), cents, q)
                }
                &&& bucket(dist, pts.take(i as int), cents, q).len() <= i
            } by {
                bucket_of_prefix(dist, pts, cents, q, i as int);
            }
            total_of_push(bucket(dist, pts.take(i as int), cents, index as int), point@, n as nat);
            total_has_dimension(bucket(dist, pts.take(i as int), cents, index as int), n as nat);
        }
        let sum: Vec<T> = sum_of(&sums[index], point);
        sums.set(index, sum);
        let count: usize = counts[index] + 1;
        counts.set(index, count);
        i = i + 1;
    }
    proof {
        assert(pts.take(i as int) =~= pts);
    }
    let mut out: Vec<Vec<T>> = Vec::new();
    let mut j: usize = 0;
    while j < k
        invariant
            j <= k,
            k == centroids.len(),
            cents == grid(centroids@),
            sums.len() == k,
            counts.len() == k,
            out.len() == j,
            forall|q: int|
                0 <= q < k ==> (#[trigger] sums@[q])@ == total(bucket(dist, pts, cents, q), n as nat),
            forall|q: int| 0 <= q < k ==> #[trigger] counts@[q] == bucket(dist, pts, cents, q).len(),
            forall|q: int|
                0 <= q < j ==> (#[trigger] out@[q])@ == new_centroid(dist, pts, cents, n as nat, q),
        decreases k - j,
    {
        assert(centroids@[j as int]@ == cents[j as int]);
        assert(sums@[j as int]@ == total(bucket(dist, pts, cents, j as int), n as nat));
        assert(counts@[j as int] == bucket(dist, pts, cents, j as int).len());
        if counts[j] == 0 {
            out.push(duplicate(&centroids[j]));
        } else {
            proof {
                total_has_dimension(bucket(dist, pts, cents, j as int), n as nat);
            }
            out.push(scaled(&sums[j], counts[j]));
        }
        j = j + 1;
    }
    proof {
        assert(grid(out@) =~= Seq::new(
            cents.len(),
            |q: int| new_centroid(dist, pts, cents, n as nat, q),
        ));
    }
    Ok(out)
}

} // verus!

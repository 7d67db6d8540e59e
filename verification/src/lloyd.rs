//! The clustering run: random initial centroids, then a fixed number of
//! recentering steps.

use vstd::prelude::*;
use crate::error::KMeansError;
use crate::recenter::{
    bucket, bucket_and_center, new_centroid, outcome, recenter, total_has_dimension,
};
use crate::scalar::Scalar;
use crate::source::{RandomSource, Sampled, ThreadSource};
use crate::vector::{grid, uniform, Coordinates, Metric, SquaredEuclidean};

verus! {

/// The centroids after `iterations` steps from `guesses`, or the error of the
/// first step that failed.
pub open spec fn iterated<T: Scalar, D: Metric<T>>(
    dist: &D,
    data: Seq<Coordinates<T>>,
    guesses: Seq<Coordinates<T>>,
    n: nat,
    iterations: nat,
) -> Result<Seq<Coordinates<T>>, KMeansError>
    decreases iterations,
{
    if iterations == 0 {
        Ok(guesses)
    } else {
        match iterated(dist, data, guesses, n, (iterations - 1) as nat) {
            Ok(centroids) => recenter(dist, data, centroids, n),
            Err(e) => Err(e),
        }
    }
}

/// Every coordinate of every vector lies in `[lower, upper)`.
pub open spec fn within<T: Scalar>(rows: Seq<Coordinates<T>>, lower: T, upper: T) -> bool {
    forall|j: int, c: int|
        0 <= j < rows.len() && 0 <= c < rows[j].len() ==> {
            &&& !(#[trigger] rows[j][c]).precedes(lower)
            &&& rows[j][c].precedes(upper)
        }
}

/// `guesses` could have been drawn as the initial centroids of a run: `k`
/// vectors of `n` coordinates each, every coordinate in `[lower, upper)`.
pub open spec fn drawable<T: Scalar>(
    guesses: Seq<Coordinates<T>>,
    k: nat,
    n: nat,
    lower: T,
    upper: T,
) -> bool {
    &&& guesses.len() == k
    &&& uniform(guesses, n)
    &&& within(guesses, lower, upper)
}

/// What a run returns: a configuration error for zero clusters, and
/// otherwise what `iterations` steps make of some drawable initial guesses.
pub open spec fn clustered<T: Scalar, D: Metric<T>>(
    dist: &D,
    data: Seq<Coordinates<T>>,
    k: nat,
    n: nat,
    iterations: nat,
    lower: T,
    upper: T,
    result: Result<Seq<Coordinates<T>>, KMeansError>,
) -> bool {
    if k == 0 {
        result == Err::<Seq<Coordinates<T>>, KMeansError>(KMeansError::InvalidClusterCount)
    } else {
        exists|guesses: Seq<Coordinates<T>>|
            #[trigger] drawable(guesses, k, n, lower, upper) && result == iterated(
                dist,
                data,
                guesses,
                n,
                iterations,
            )
    }
}

/// When a run succeeds and when it fails: zero clusters are a configuration
/// error; at least one step on data that holds a point whose length is not
/// `n` is a dimension mismatch; every other run returns `k` centroids of `n`
/// coordinates each.
pub open spec fn verdict<T>(
    data: Seq<Coordinates<T>>,
    k: nat,
    n: nat,
    iterations: nat,
    result: Result<Seq<Coordinates<T>>, KMeansError>,
) -> bool {
    match result {
        Ok(centroids) => {
            &&& k > 0
            &&& iterations == 0 || uniform(data, n)
            &&& centroids.len() == k
            &&& uniform(centroids, n)
        },
        Err(e) => if k == 0 {
            e == KMeansError::InvalidClusterCount
        } else {
            &&& iterations > 0
            &&& !uniform(data, n)
            &&& e == KMeansError::DimensionMismatch
        },
    }
}

/// Once a step has failed, the run has failed: later iteration counts give
/// the same error.
pub proof fn failure_is_final<T: Scalar, D: Metric<T>>(
    dist: &D,
    data: Seq<Coordinates<T>>,
    guesses: Seq<Coordinates<T>>,
    n: nat,
    failed: nat,
    later: nat,
)
    requires
        failed <= later,
        iterated(dist, data, guesses, n, failed) is Err,
    ensures
        iterated(dist, data, guesses, n, later) == iterated(dist, data, guesses, n, failed),
    decreases later,
{
    if failed < later {
        failure_is_final(dist, data, guesses, n, failed, (later - 1) as nat);
    }
}

/// Centroids that a step leaves unchanged stay unchanged under any number of
/// further steps.
pub proof fn fixed_point_is_stable<T: Scalar, D: Metric<T>>(
    dist: &D,
    data: Seq<Coordinates<T>>,
    centroids: Seq<Coordinates<T>>,
    n: nat,
    iterations: nat,
)
    requires
        recenter(dist, data, centroids, n) == Ok::<Seq<Coordinates<T>>, KMeansError>(centroids),
    ensures
        iterated(dist, data, centroids, n, iterations) == Ok::<Seq<Coordinates<T>>, KMeansError>(
            centroids,
        ),
    decreases iterations,
{
    if iterations > 0 {
        fixed_point_is_stable(dist, data, centroids, n, (iterations - 1) as nat);
    }
}

/// Running `first` steps and then `second` more from their result is running
/// `first + second` steps at once.
pub proof fn iterations_compose<T: Scalar, D: Metric<T>>(
    dist: &D,
    data: Seq<Coordinates<T>>,
    guesses: Seq<Coordinates<T>>,
    n: nat,
    first: nat,
    second: nat,
)
    ensures
        iterated(dist, data, guesses, n, first + second) == match iterated(
            dist,
            data,
            guesses,
            n,
            first,
        ) {
            Ok(centroids) => iterated(dist, data, centroids, n, second),
            Err(e) => Err(e),
        },
    decreases second,
{
    if second > 0 {
        iterations_compose(dist, data, guesses, n, first, (second - 1) as nat);
    }
}

/// Centroids that no longer change between two consecutive iteration counts
/// are the result of every later count as well.
pub proof fn convergence_is_final<T: Scalar, D: Metric<T>>(
    dist: &D,
    data: Seq<Coordinates<T>>,
    guesses: Seq<Coordinates<T>>,
    n: nat,
    reached: nat,
    later: nat,
)
    requires
        reached <= later,
        iterated(dist, data, guesses, n, reached) is Ok,
        iterated(dist, data, guesses, n, reached + 1) == iterated(dist, data, guesses, n, reached),
    ensures
        iterated(dist, data, guesses, n, later) == iterated(dist, data, guesses, n, reached),
{
    let centroids = iterated(dist, data, guesses, n, reached).unwrap();
    assert(recenter(dist, data, centroids, n) == iterated(dist, data, guesses, n, reached + 1));
    iterations_compose(dist, data, guesses, n, reached, (later - reached) as nat);
    fixed_point_is_stable(dist, data, centroids, n, (later - reached) as nat);
}

/// A step that succeeds was given centroids and data of dimension `n`, and
/// returns as many centroids as it was given, each of dimension `n` and each
/// at its old index: the centroid at `j` is made of the bucket of the old
/// centroid at `j`.
pub proof fn step_keeps_shape<T: Scalar, D: Metric<T>>(
    dist: &D,
    data: Seq<Coordinates<T>>,
    centroids: Seq<Coordinates<T>>,
    n: nat,
)
    ensures
        match recenter(dist, data, centroids, n) {
            Ok(next) => {
                &&& uniform(centroids, n)
                &&& uniform(data, n)
                &&& next.len() == centroids.len()
                &&& uniform(next, n)
                &&& forall|j: int|
                    0 <= j < next.len() ==> #[trigger] next[j] == new_centroid(
                        dist,
                        data,
                        centroids,
                        n,
                        j,
                    )
            },
            Err(e) => {
                ||| data.len() > 0 && centroids.len() == 0 && e == KMeansError::EmptyCandidates
                ||| (!uniform(centroids, n) || !uniform(data, n)) && e
                    == KMeansError::DimensionMismatch
            },
        },
{
    if recenter(dist, data, centroids, n) is Ok {
        let next = recenter(dist, data, centroids, n).unwrap();
        assert forall|j: int| 0 <= j < next.len() implies (#[trigger] next[j]).len() == n by {
            assert(centroids[j].len() == n);
            total_has_dimension(bucket(dist, data, centroids, j), n);
        }
    }
}

/// However many steps a run takes, if it succeeds it returns as many
/// centroids as there were initial guesses.
pub proof fn run_keeps_count<T: Scalar, D: Metric<T>>(
    dist: &D,
    data: Seq<Coordinates<T>>,
    guesses: Seq<Coordinates<T>>,
    n: nat,
    iterations: nat,
)
    ensures
        match iterated(dist, data, guesses, n, iterations) {
            Ok(centroids) => {
                &&& centroids.len() == guesses.len()
                &&& iterations > 0 ==> uniform(centroids, n)
            },
            Err(e) => iterations > 0,
        },
    decreases iterations,
{
    if iterations > 0 {
        run_keeps_count(dist, data, guesses, n, (iterations - 1) as nat);
        match iterated(dist, data, guesses, n, (iterations - 1) as nat) {
            Ok(centroids) => {
                step_keeps_shape(dist, data, centroids, n);
            },
            Err(e) => {},
        }
    }
}

/// From `k >= 1` initial guesses of dimension `n`, a run of any length
/// returns exactly `k` centroids of dimension `n`, unless it runs at least
/// one step on data that holds a point of another dimension, which is a
/// dimension mismatch.
pub proof fn run_keeps_shape<T: Scalar, D: Metric<T>>(
    dist: &D,
    data: Seq<Coordinates<T>>,
    guesses: Seq<Coordinates<T>>,
    n: nat,
    iterations: nat,
)
    requires
        guesses.len() > 0,
        uniform(guesses, n),
    ensures
        match iterated(dist, data, guesses, n, iterations) {
            Ok(centroids) => {
                &&& iterations == 0 || uniform(data, n)
                &&& centroids.len() == guesses.len()
                &&& uniform(centroids, n)
            },
            Err(e) => {
                &&& iterations > 0
                &&& !uniform(data, n)
                &&& e == KMeansError::DimensionMismatch
            },
        },
    decreases iterations,
{
    if iterations > 0 {
        run_keeps_shape(dist, data, guesses, n, (iterations - 1) as nat);
        match iterated(dist, data, guesses, n, (iterations - 1) as nat) {
            Ok(centroids) => {
                step_keeps_shape(dist, data, centroids, n);
            },
            Err(e) => {},
        }
    }
}

/// Repeats the recentering step `iterations` times, starting from `guesses`
/// and feeding each step the centroids of the one before. The count is the
/// only thing that ends the run.
pub fn k_means_from<T: Scalar, D: Metric<T>>(
    data: &Vec<Vec<T>>,
    guesses: Vec<Vec<T>>,
    n: usize,
    iterations: u32,
    dist: &D,
) -> (r: Result<Vec<Vec<T>>, KMeansError>)
    ensures
        outcome(r) == iterated(dist, grid(data@), grid(guesses@), n as nat, iterations as nat),
        r is Ok ==> r.unwrap().len() == guesses.len(),
{
    let ghost start = grid(guesses@);
    proof {
        run_keeps_count(dist, grid(data@), start, n as nat, iterations as nat);
    }
    let mut centers: Vec<Vec<T>> = guesses;
    let mut done: u32 = 0;
    while done < iterations
        invariant
            done <= iterations,
            start == grid(guesses@),
            iterated(dist, grid(data@), start, n as nat, done as nat) == Ok::<
                Seq<Coordinates<T>>,
                KMeansError,
            >(grid(centers@)),
        decreases iterations - done,
    {
        match bucket_and_center(data, &centers, n, dist) {
            Ok(next) => {
                centers = next;
            },
            Err(e) => {
                proof {
                    assert(iterated(dist, grid(data@), start, n as nat, (done + 1) as nat)
                        == Err::<Seq<Coordinates<T>>, KMeansError>(e));
                    failure_is_final(
                        dist,
                        grid(data@),
                        start,
                        n as nat,
                        (done + 1) as nat,
                        iterations as nat,
                    );
                }
                return Err(e);
            },
        }
        done = done + 1;
    }
    Ok(centers)
}

/// Draws `k` initial centroids of `n` coordinates each, one coordinate after
/// another, every one from `[lower, upper)`.
pub fn initial_guesses<T: Scalar, R: RandomSource<T>>(
    k: usize,
    n: usize,
    lower: T,
    upper: T,
    rng: &mut R,
) -> (guesses: Vec<Vec<T>>)
    requires
        k > 0 && n > 0 ==> lower.precedes(upper),
    ensures
        drawable(grid(guesses@), k as nat, n as nat, lower, upper),
{
    let mut guesses: Vec<Vec<T>> = Vec::new();
    let mut j: usize = 0;
    while j < k
        invariant
            j <= k,
            k > 0 && n > 0 ==> lower.precedes(upper),
            drawable(grid(guesses@), j as nat, n as nat, lower, upper),
        decreases k - j,
    {
        let mut guess: Vec<T> = Vec::new();
        let mut c: usize = 0;
        while c < n
            invariant
                c <= n,
                n > 0 ==> lower.precedes(upper),
                guess.len() == c,
                forall|q: int|
                    0 <= q < c ==> {
                        &&& !(#[trigger] guess@[q]).precedes(lower)
                        &&& guess@[q].precedes(upper)
                    },
            decreases n - c,
        {
            guess.push(rng.draw(lower, upper));
            c = c + 1;
        }
        proof {
            let before = grid(guesses@);
            let after = grid(guesses@.push(guess));
            assert forall|q: int| 0 <= q < after.len() implies (#[trigger] after[q]).len()
                == n by {
                if q < j {
                    assert(after[q] == before[q]);
                }
            }
            assert forall|q: int, d: int|
                0 <= q < after.len() && 0 <= d < after[q].len() implies {
                &&& !(#[trigger] after[q][d]).precedes(lower)
                &&& after[q][d].precedes(upper)
            } by {
                if q < j {
                    assert(after[q] == before[q]);
                    assert(!before[q][d].precedes(lower));
                }
            }
        }
        guesses.push(guess);
        j = j + 1;
    }
    guesses
}

/// Clusters `data` around `k` centroids of dimension `n`.
///
/// The initial centroids are drawn from `rng`, coordinate by coordinate, in
/// `[lower, upper)`; then `iterations` recentering steps run under `dist`.
/// Zero clusters are refused before anything is drawn. A run of at least one
/// step on data that holds a point whose length is not `n` is a dimension
/// mismatch; every other run returns exactly `k` centroids of `n`
/// coordinates, in the order of the initial guesses.
pub fn k_means_with_rng_and_distance<T: Scalar, R: RandomSource<T>, D: Metric<T>>(
    data: &Vec<Vec<T>>,
    k: usize,
    n: usize,
    iterations: u32,
    lower: T,
    upper: T,
    rng: &mut R,
    dist: D,
) -> (r: Result<Vec<Vec<T>>, KMeansError>)
    requires
        k > 0 && n > 0 ==> lower.precedes(upper),
    ensures
        clustered(
            &dist,
            grid(data@),
            k as nat,
            n as nat,
            iterations as nat,
            lower,
            upper,
            outcome(r),
        ),
        verdict(grid(data@), k as nat, n as nat, iterations as nat, outcome(r)),
        k == 0 ==> *final(rng) == *old(rng),
{
    if k == 0 {
        return Err(KMeansError::InvalidClusterCount);
    }
    let guesses: Vec<Vec<T>> = initial_guesses(k, n, lower, upper, rng);
    proof {
        run_keeps_shape(&dist, grid(data@), grid(guesses@), n as nat, iterations as nat);
    }
    k_means_from(data, guesses, n, iterations, &dist)
}

/// Clusters `data` under the squared Euclidean distance, drawing the initial
/// centroids from `rng`.
pub fn k_means_with_rng<T: Scalar, R: RandomSource<T>>(
    data: &Vec<Vec<T>>,
    k: usize,
    n: usize,
    iterations: u32,
    lower: T,
    upper: T,
    rng: &mut R,
) -> (r: Result<Vec<Vec<T>>, KMeansError>)
    requires
        k > 0 && n > 0 ==> lower.precedes(upper),
    ensures
        clustered(
            &SquaredEuclidean,
            grid(data@),
            k as nat,
            n as nat,
            iterations as nat,
            lower,
            upper,
            outcome(r),
        ),
        verdict(grid(data@), k as nat, n as nat, iterations as nat, outcome(r)),
        k == 0 ==> *final(rng) == *old(rng),
{
    k_means_with_rng_and_distance(data, k, n, iterations, lower, upper, rng, SquaredEuclidean)
}

/// Clusters `data` under `dist`, drawing the initial centroids from the
/// calling thread's generator.
pub fn k_means_with_distance<T: Sampled, D: Metric<T>>(
    data: &Vec<Vec<T>>,
    k: usize,
    n: usize,
    iterations: u32,
    lower: T,
    upper: T,
    dist: D,
) -> (r: Result<Vec<Vec<T>>, KMeansError>)
    requires
        k > 0 && n > 0 ==> lower.precedes(upper),
    ensures
        clustered(
            &dist,
            grid(data@),
            k as nat,
            n as nat,
            iterations as nat,
            lower,
            upper,
            outcome(r),
        ),
        verdict(grid(data@), k as nat, n as nat, iterations as nat, outcome(r)),
{
    let mut rng: ThreadSource = ThreadSource::new();
    k_means_with_rng_and_distance(data, k, n, iterations, lower, upper, &mut rng, dist)
}

/// Clusters `data` under the squared Euclidean distance, drawing the initial
/// centroids from the calling thread's generator.
pub fn k_means_auto<T: Sampled>(
    data: &Vec<Vec<T>>,
    k: usize,
    n: usize,
    iterations: u32,
    lower: T,
    upper: T,
) -> (r: Result<Vec<Vec<T>>, KMeansError>)
    requires
        k > 0 && n > 0 ==> lower.precedes(upper),
    ensures
        clustered(
            &SquaredEuclidean,
            grid(data@),
            k as nat,
            n as nat,
            iterations as nat,
            lower,
            upper,
            outcome(r),
        ),
        verdict(grid(data@), k as nat, n as nat, iterations as nat, outcome(r)),
{
    k_means_with_distance(data, k, n, iterations, lower, upper, SquaredEuclidean)
}

} // verus!

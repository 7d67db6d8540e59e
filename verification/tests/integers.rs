//! The library on whole-number coordinates.

use kmeans::{
    add, bucket_and_center, closest_index, dist_sq, initial_guesses, k_means_auto, k_means_from,
    k_means_with_distance, k_means_with_rng, k_means_with_rng_and_distance, KMeansError,
    RandomSource, Scalar, SquaredEuclidean, ThreadSource,
};

/// A source that hands out a fixed list of values, one per draw, over and
/// over.
struct Replay {
    values: Vec<i64>,
    next: usize,
}

impl Replay {
    fn new(values: &[i64]) -> Replay {
        Replay { values: values.to_vec(), next: 0 }
    }
}

impl RandomSource<i64> for Replay {
    fn draw(&mut self, _lower: i64, _upper: i64) -> i64 {
        let value = self.values[self.next % self.values.len()];
        self.next += 1;
        value
    }
}

fn two_clusters() -> Vec<Vec<i64>> {
    vec![
        vec![0, 0],
        vec![0, 2],
        vec![2, 0],
        vec![2, 2],
        vec![18, 18],
        vec![18, 20],
        vec![20, 18],
        vec![20, 20],
    ]
}

#[test]
fn integer_add() {
    assert_eq!(Ok(vec![5, 7, 9]), add(&vec![1i64, 2, 3], &vec![4i64, 5, 6]));
    assert_eq!(Ok(vec![]), add(&Vec::<i64>::new(), &Vec::<i64>::new()));
}

#[test]
fn integer_add_stops_at_the_ends_of_the_range() {
    assert_eq!(
        Ok(vec![i64::MAX, i64::MIN, -1]),
        add(&vec![i64::MAX, i64::MIN, i64::MAX], &vec![1i64, -1, i64::MIN])
    );
}

#[test]
fn integer_dist_sq() {
    assert_eq!(Ok(25), dist_sq(&vec![0i64, 0], &vec![4i64, 3]));
    assert_eq!(Ok(0), dist_sq(&Vec::<i64>::new(), &Vec::<i64>::new()));
    assert_eq!(Ok(i64::MAX), dist_sq(&vec![i64::MIN], &vec![i64::MAX]));
}

#[test]
fn unequal_lengths_are_refused() {
    assert_eq!(Err(KMeansError::DimensionMismatch), add(&vec![1i64, 2], &vec![1i64]));
    assert_eq!(Err(KMeansError::DimensionMismatch), add(&vec![1i64], &vec![1i64, 2]));
    assert_eq!(Err(KMeansError::DimensionMismatch), dist_sq(&vec![1i64, 2], &vec![1i64]));
    assert_eq!(Err(KMeansError::DimensionMismatch), dist_sq(&vec![], &vec![1i64]));
}

#[test]
fn scalar_operations_on_integers() {
    assert_eq!(0, i64::origin());
    assert_eq!(7, 3i64.plus(4));
    assert_eq!(-1, 3i64.minus(4));
    assert_eq!(i64::MAX, i64::MAX.minus(-1));
    assert_eq!(12, 3i64.times(4));
    assert_eq!(i64::MIN, i64::MAX.times(-2));
    assert_eq!(i64::MAX, i64::MIN.times(i64::MIN));
    assert_eq!(2, 5i64.shared(2));
    assert_eq!(-2, (-5i64).shared(2));
    assert_eq!(i64::MIN, i64::MIN.shared(1));
    assert_eq!(0, 7i64.shared(usize::MAX));
    assert!(3i64.less(4));
    assert!(!4i64.less(4));
}

#[test]
fn closest_index_takes_the_first_of_equals() {
    let candidates = vec![vec![5i64, 5], vec![1, 0], vec![0, 1], vec![-1, 0]];
    assert_eq!(Ok(1), closest_index(&vec![0i64, 0], &candidates, &SquaredEuclidean));
    let same = vec![vec![2i64], vec![2], vec![2]];
    assert_eq!(Ok(0), closest_index(&vec![9i64], &same, &SquaredEuclidean));
}

#[test]
fn closest_index_finds_a_late_minimum() {
    let candidates = vec![vec![10i64], vec![8], vec![6], vec![5]];
    assert_eq!(Ok(3), closest_index(&vec![4i64], &candidates, &SquaredEuclidean));
}

#[test]
fn closest_index_without_candidates() {
    let none: Vec<Vec<i64>> = vec![];
    assert_eq!(
        Err(KMeansError::EmptyCandidates),
        closest_index(&vec![0i64, 0], &none, &SquaredEuclidean)
    );
}

#[test]
fn closest_index_with_a_candidate_of_another_length() {
    let candidates = vec![vec![1i64, 1], vec![2]];
    assert_eq!(
        Err(KMeansError::DimensionMismatch),
        closest_index(&vec![0i64, 0], &candidates, &SquaredEuclidean)
    );
}

#[test]
fn step_moves_centroids_to_the_means() {
    let data = two_clusters();
    let centroids = vec![vec![5i64, 5], vec![15, 15]];
    assert_eq!(
        Ok(vec![vec![1, 1], vec![19, 19]]),
        bucket_and_center(&data, &centroids, 2, &SquaredEuclidean)
    );
}

#[test]
fn step_keeps_the_order_of_the_centroids() {
    let data = two_clusters();
    let centroids = vec![vec![15i64, 15], vec![5, 5]];
    assert_eq!(
        Ok(vec![vec![19, 19], vec![1, 1]]),
        bucket_and_center(&data, &centroids, 2, &SquaredEuclidean)
    );
}

#[test]
fn step_rounds_the_mean_toward_zero() {
    let data = vec![vec![1i64, -1], vec![2, -2]];
    let centroids = vec![vec![0i64, 0]];
    assert_eq!(
        Ok(vec![vec![1, -1]]),
        bucket_and_center(&data, &centroids, 2, &SquaredEuclidean)
    );
}

#[test]
fn centroid_without_points_stays() {
    let data = two_clusters();
    let centroids = vec![vec![1i64, 1], vec![19, 19], vec![100, 100]];
    assert_eq!(
        Ok(vec![vec![1, 1], vec![19, 19], vec![100, 100]]),
        bucket_and_center(&data, &centroids, 2, &SquaredEuclidean)
    );
}

#[test]
fn step_on_no_data_returns_the_centroids() {
    let data: Vec<Vec<i64>> = vec![];
    let centroids = vec![vec![3i64, 4], vec![5, 6]];
    assert_eq!(
        Ok(centroids.clone()),
        bucket_and_center(&data, &centroids, 2, &SquaredEuclidean)
    );
    let none: Vec<Vec<i64>> = vec![];
    assert_eq!(Ok(vec![]), bucket_and_center(&data, &none, 2, &SquaredEuclidean));
}

#[test]
fn step_without_centroids_is_refused() {
    let none: Vec<Vec<i64>> = vec![];
    assert_eq!(
        Err(KMeansError::EmptyCandidates),
        bucket_and_center(&two_clusters(), &none, 2, &SquaredEuclidean)
    );
    let ragged = vec![vec![1i64, 2, 3]];
    assert_eq!(
        Err(KMeansError::EmptyCandidates),
        bucket_and_center(&ragged, &none, 2, &SquaredEuclidean)
    );
}

#[test]
fn step_on_mismatched_dimensions_is_refused() {
    let centroids = vec![vec![5i64, 5], vec![15, 15]];
    let ragged = vec![vec![0i64, 0], vec![1, 2, 3]];
    assert_eq!(
        Err(KMeansError::DimensionMismatch),
        bucket_and_center(&ragged, &centroids, 2, &SquaredEuclidean)
    );
    assert_eq!(
        Err(KMeansError::DimensionMismatch),
        bucket_and_center(&two_clusters(), &centroids, 3, &SquaredEuclidean)
    );
    let short = vec![vec![5i64, 5], vec![15]];
    assert_eq!(
        Err(KMeansError::DimensionMismatch),
        bucket_and_center(&two_clusters(), &short, 2, &SquaredEuclidean)
    );
    let empty: Vec<Vec<i64>> = vec![];
    assert_eq!(
        Err(KMeansError::DimensionMismatch),
        bucket_and_center(&empty, &short, 2, &SquaredEuclidean)
    );
}

#[test]
fn zero_iterations_return_the_guesses() {
    let guesses = vec![vec![7i64, 7], vec![8, 8]];
    assert_eq!(
        Ok(guesses.clone()),
        k_means_from(&two_clusters(), guesses.clone(), 2, 0, &SquaredEuclidean)
    );
    let ragged = vec![vec![1i64, 2, 3]];
    assert_eq!(
        Ok(guesses.clone()),
        k_means_from(&ragged, guesses, 2, 0, &SquaredEuclidean)
    );
}

#[test]
fn iterations_run_one_step_after_another() {
    let data = two_clusters();
    let guesses = vec![vec![8i64, 8], vec![9, 9]];
    let one = bucket_and_center(&data, &guesses, 2, &SquaredEuclidean).unwrap();
    let two = bucket_and_center(&data, &one, 2, &SquaredEuclidean).unwrap();
    assert_eq!(vec![vec![1, 1], vec![19, 19]], two);
    assert_eq!(
        Ok(one),
        k_means_from(&data, guesses.clone(), 2, 1, &SquaredEuclidean)
    );
    assert_eq!(
        Ok(two),
        k_means_from(&data, guesses, 2, 2, &SquaredEuclidean)
    );
}

#[test]
fn converged_centroids_stay() {
    let data = two_clusters();
    let converged = vec![vec![1i64, 1], vec![19, 19]];
    assert_eq!(
        Ok(converged.clone()),
        bucket_and_center(&data, &converged, 2, &SquaredEuclidean)
    );
    for iterations in 0..6u32 {
        assert_eq!(
            Ok(converged.clone()),
            k_means_from(&data, converged.clone(), 2, iterations, &SquaredEuclidean)
        );
    }
}

#[test]
fn a_failed_step_fails_the_run() {
    let ragged = vec![vec![0i64, 0], vec![1]];
    let guesses = vec![vec![7i64, 7], vec![8, 8]];
    assert_eq!(
        Err(KMeansError::DimensionMismatch),
        k_means_from(&ragged, guesses, 2, 3, &SquaredEuclidean)
    );
    let none: Vec<Vec<i64>> = vec![];
    assert_eq!(
        Err(KMeansError::EmptyCandidates),
        k_means_from(&two_clusters(), none, 2, 1, &SquaredEuclidean)
    );
}

#[test]
fn guesses_are_drawn_row_by_row() {
    let mut rng = Replay::new(&[1, 2, 3, 4, 5, 6]);
    assert_eq!(
        vec![vec![1, 2, 3], vec![4, 5, 6]],
        initial_guesses(2, 3, 0i64, 10, &mut rng)
    );
    assert_eq!(6, rng.next);
    let mut unused = Replay::new(&[1]);
    assert_eq!(vec![Vec::<i64>::new(); 3], initial_guesses(3, 0, 0i64, 10, &mut unused));
    assert_eq!(0, unused.next);
}

#[test]
fn run_from_replayed_guesses() {
    let mut rng = Replay::new(&[8, 8, 9, 9]);
    assert_eq!(
        Ok(vec![vec![1, 1], vec![19, 19]]),
        k_means_with_rng(&two_clusters(), 2, 2, 4, 0i64, 20, &mut rng)
    );
    let mut swapped = Replay::new(&[9, 9, 8, 8]);
    assert_eq!(
        Ok(vec![vec![19, 19], vec![1, 1]]),
        k_means_with_rng_and_distance(
            &two_clusters(),
            2,
            2,
            4,
            0i64,
            20,
            &mut swapped,
            SquaredEuclidean
        )
    );
}

#[test]
fn zero_clusters_are_refused_before_any_draw() {
    let mut rng = Replay::new(&[1]);
    assert_eq!(
        Err(KMeansError::InvalidClusterCount),
        k_means_with_rng(&two_clusters(), 0, 2, 4, 0i64, 20, &mut rng)
    );
    assert_eq!(0, rng.next);
    assert_eq!(
        Err(KMeansError::InvalidClusterCount),
        k_means_with_rng_and_distance(&two_clusters(), 0, 2, 4, 0i64, 20, &mut rng, SquaredEuclidean)
    );
    assert_eq!(
        Err(KMeansError::InvalidClusterCount),
        k_means_with_distance(&two_clusters(), 0, 2, 4, 0i64, 20, SquaredEuclidean)
    );
    assert_eq!(
        Err(KMeansError::InvalidClusterCount),
        k_means_auto(&two_clusters(), 0, 2, 4, 0i64, 20)
    );
}

#[test]
fn run_on_ragged_data_is_a_dimension_mismatch() {
    let ragged = vec![vec![0i64, 0], vec![1]];
    let mut rng = Replay::new(&[8, 8, 9, 9]);
    assert_eq!(
        Err(KMeansError::DimensionMismatch),
        k_means_with_rng(&ragged, 2, 2, 1, 0i64, 20, &mut rng)
    );
    let mut again = Replay::new(&[8, 8, 9, 9]);
    assert_eq!(
        Ok(vec![vec![8, 8], vec![9, 9]]),
        k_means_with_rng(&ragged, 2, 2, 0, 0i64, 20, &mut again)
    );
}

#[test]
fn run_on_no_data_keeps_the_guesses() {
    let none: Vec<Vec<i64>> = vec![];
    let mut rng = Replay::new(&[3, 4, 5, 6]);
    assert_eq!(
        Ok(vec![vec![3, 4], vec![5, 6]]),
        k_means_with_rng(&none, 2, 2, 7, 0i64, 20, &mut rng)
    );
}

#[test]
fn thread_source_draws_within_the_range() {
    let mut rng = ThreadSource::new();
    let mut seen_other_than_lower = false;
    for _ in 0..200 {
        let value: i64 = rng.draw(-1_000_000, 1_000_000);
        assert!(-1_000_000 <= value && value < 1_000_000);
        if value != -1_000_000 {
            seen_other_than_lower = true;
        }
    }
    assert!(seen_other_than_lower);
    for _ in 0..50 {
        let value: i64 = rng.draw(41, 42);
        assert_eq!(41, value);
    }
}

#[test]
fn thread_source_draws_differ() {
    let guesses = k_means_auto(&two_clusters(), 4, 8, 0, 0i64, i64::MAX).unwrap();
    assert_eq!(4, guesses.len());
    let mut distinct = false;
    for row in guesses.iter() {
        assert_eq!(8, row.len());
        for value in row.iter() {
            assert!(0 <= *value && *value < i64::MAX);
            if *value != guesses[0][0] {
                distinct = true;
            }
        }
    }
    assert!(distinct);
}

#[test]
fn defaulted_runs_have_the_asked_shape() {
    let data = two_clusters();
    let auto = k_means_auto(&data, 3, 2, 5, 0i64, 21).unwrap();
    let with_distance = k_means_with_distance(&data, 3, 2, 5, 0i64, 21, SquaredEuclidean).unwrap();
    for result in [auto, with_distance].iter() {
        assert_eq!(3, result.len());
        for centroid in result.iter() {
            assert_eq!(2, centroid.len());
            for value in centroid.iter() {
                assert!(0 <= *value && *value <= 20);
            }
        }
    }
}

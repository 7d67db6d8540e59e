//! Lloyd's k-means clustering, generic over the scalar that coordinates are
//! made of, with every step stated as a contract and proved.
//!
//! A run draws `k` initial centroids from a random source and then repeats a
//! fixed number of assignment-and-recentering steps. The arithmetic lives in
//! the [`Scalar`] trait, the distance in [`Metric`], and the draws in
//! [`RandomSource`], so the clustering logic itself never depends on how a
//! number is represented.
//!
//! Whole numbers on 64 bits are scalars out of the box, and for them the
//! module [`integer`] relates what clustering computes to plain integer
//! arithmetic. Floating-point coordinates come in through an implementation
//! of [`Scalar`] outside the verified code, where their arithmetic is taken
//! as it is.

pub mod error;
pub mod integer;
pub mod lloyd;
pub mod nearest;
pub mod recenter;
pub mod scalar;
pub mod source;
pub mod vector;

pub use crate::error::KMeansError;
pub use crate::lloyd::{
    initial_guesses, k_means_auto, k_means_from, k_means_with_distance, k_means_with_rng,
    k_means_with_rng_and_distance,
};
pub use crate::nearest::closest_index;
pub use crate::recenter::bucket_and_center;
pub use crate::scalar::Scalar;
pub use crate::source::{RandomSource, Sampled, ThreadSource};
pub use crate::vector::{add, dist_sq, Coordinates, Metric, SquaredEuclidean};

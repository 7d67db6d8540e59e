//! The numbers that coordinates and distances are made of.
//!
//! Clustering needs only a handful of operations on its numbers: a zero, sum,
//! difference and product, division by a count, and a strict order. The
//! [`Scalar`] trait names each of them twice, once as a specification function
//! and once as the executable method that computes exactly that function.

use vstd::prelude::*;

verus! {

/// A number with the arithmetic and the order that clustering relies on.
///
/// Nothing is asked of the arithmetic beyond being a function of its operands;
/// in particular sums need not be associative. The order must be a strict weak
/// order, which the three proof obligations state.
///
/// An implementation written outside verified code still has to name the
/// specification and proof items, which compile to ordinary functions; they
/// are never called when the program runs.
pub trait Scalar: Copy {
    /// The neutral starting value of a sum.
    spec fn zero() -> Self;

    /// The sum of two scalars.
    spec fn sum(self, rhs: Self) -> Self;

    /// The difference of two scalars.
    spec fn difference(self, rhs: Self) -> Self;

    /// The product of two scalars.
    spec fn product(self, rhs: Self) -> Self;

    /// The scalar divided by a positive count.
    spec fn quotient(self, count: usize) -> Self;

    /// Whether `self` is strictly smaller than `rhs`.
    spec fn precedes(self, rhs: Self) -> bool;

    /// No scalar is smaller than itself.
    proof fn precedes_irreflexive(a: Self)
        ensures
            !a.precedes(a),
    ;

    /// Smaller than something smaller is smaller.
    proof fn precedes_transitive(a: Self, b: Self, c: Self)
        requires
            a.precedes(b),
            b.precedes(c),
        ensures
            a.precedes(c),
    ;

    /// Any third scalar lies above the smaller or below the larger of two
    /// ordered ones.
    proof fn precedes_splits(a: Self, b: Self, c: Self)
        requires
            a.precedes(b),
        ensures
            a.precedes(c) || c.precedes(b),
    ;

    /// Computes `zero`.
    fn origin() -> (r: Self)
        ensures
            r == Self::zero(),
    ;

    /// Computes `sum`.
    fn plus(self, rhs: Self) -> (r: Self)
        ensures
            r == self.sum(rhs),
    ;

    /// Computes `difference`.
    fn minus(self, rhs: Self) -> (r: Self)
        ensures
            r == self.difference(rhs),
    ;

    /// Computes `product`.
    fn times(self, rhs: Self) -> (r: Self)
        ensures
            r == self.product(rhs),
    ;

    /// Computes `quotient`: the scalar shared out among `count`.
    fn shared(self, count: usize) -> (r: Self)
        requires
            count > 0,
        ensures
            r == self.quotient(count),
    ;

    /// Decides `precedes`.
    fn less(self, rhs: Self) -> (r: bool)
        ensures
            r == self.precedes(rhs),
    ;
}

} // verus!

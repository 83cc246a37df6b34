//! What every elimination strategy offers: it is made from a matrix, is
//! advanced one row operation at a time, and counts what it does.
use vstd::prelude::*;
use crate::arithmetic::Arithmetic;
use crate::matrix::Matrix;
use crate::steps::Step;

verus! {

/// Tallies of the work done so far. No counter ever goes down.
#[derive(Clone, Copy, Debug, PartialEq, Eq)]
pub struct AlgorithmMetadata {
    /// Comparisons between pivot candidates.
    pub comparisons: u32,
    /// Assignments: one for each pivot scan, and one for each entry written
    /// beside the pivot column during an elimination.
    pub sets: u32,
    /// Eliminations carried out on the way down.
    pub elementary_operations: u32,
    /// Row operations carried out on the way back up.
    pub back_substitution_operations: u32,
}

impl AlgorithmMetadata {
    /// Tallies that are all zero.
    pub fn new() -> (metadata: Self)
        ensures
            metadata == Self::zeroed(),
    {
        Self {
            comparisons: 0,
            sets: 0,
            elementary_operations: 0,
            back_substitution_operations: 0,
        }
    }

    /// Tallies that are all zero.
    pub open spec fn zeroed() -> Self {
        AlgorithmMetadata {
            comparisons: 0,
            sets: 0,
            elementary_operations: 0,
            back_substitution_operations: 0,
        }
    }

    /// Whether every counter is at least what it is in `earlier`.
    pub open spec fn at_least(self, earlier: Self) -> bool {
        &&& self.comparisons >= earlier.comparisons
        &&& self.sets >= earlier.sets
        &&& self.elementary_operations >= earlier.elementary_operations
        &&& self.back_substitution_operations >= earlier.back_substitution_operations
    }

    /// Whether the counters are those of `earlier` with the given amounts
    /// added, none of them wrapping.
    pub open spec fn grown_from(
        self,
        earlier: Self,
        comparisons: int,
        sets: int,
        elementary_operations: int,
        back_substitution_operations: int,
    ) -> bool {
        &&& self.comparisons == earlier.comparisons + comparisons
        &&& self.sets == earlier.sets + sets
        &&& self.elementary_operations == earlier.elementary_operations + elementary_operations
        &&& self.back_substitution_operations == earlier.back_substitution_operations
            + back_substitution_operations
    }
}

/// Tallies that never fall from one call to the next have not fallen over
/// any number of calls.
pub proof fn lemma_at_least_transitive(
    first: AlgorithmMetadata,
    second: AlgorithmMetadata,
    third: AlgorithmMetadata,
)
    requires
        second.at_least(first),
        third.at_least(second),
    ensures
        third.at_least(first),
        first.at_least(first),
{
}

/// The pivot of an elimination was exactly zero, so no factor could be
/// computed.
#[derive(Clone, Copy, Debug, PartialEq, Eq)]
pub struct ZeroPivot {
    /// The row, and column, of the pivot.
    pub row: usize,
}

/// An elimination strategy that is stepped through.
pub trait Algorithm: Sized {
    /// The matrices that the strategy can be made from.
    spec fn accepts(matrix: &Matrix) -> bool;

    /// What holds of the strategy's state between any two calls.
    spec fn well_formed(&self) -> bool;

    /// The tallies so far.
    spec fn counters(&self) -> AlgorithmMetadata;

    /// Takes the matrix and starts from its first row, with all tallies zero.
    fn new(matrix: Matrix) -> (algorithm: Self)
        requires
            Self::accepts(&matrix),
        ensures
            algorithm.well_formed(),
            algorithm.counters() == AlgorithmMetadata::zeroed(),
    ;

    /// The tallies so far.
    fn metadata(&self) -> (metadata: &AlgorithmMetadata)
        ensures
            *metadata == self.counters(),
    ;

    /// Carries out the next row operation on the way down and returns it, or
    /// `None` when the way down is finished. No tally goes down.
    fn forward<D, M, S>(&mut self, arithmetic: &Arithmetic<D, M, S>) -> (step: Result<
        Option<Step>,
        ZeroPivot,
    >) where D: Fn(u64, u64) -> u64, M: Fn(u64, u64) -> u64, S: Fn(u64, u64) -> u64
        requires
            old(self).well_formed(),
            arithmetic.usable(),
        ensures
            final(self).well_formed(),
            final(self).counters().at_least(old(self).counters()),
    ;

    /// Carries out the next row operation on the way back up and returns it,
    /// or `None` when there is none to carry out. No tally goes down.
    fn back<D, M, S>(&mut self, arithmetic: &Arithmetic<D, M, S>) -> (step: Result<
        Option<Step>,
        ZeroPivot,
    >) where D: Fn(u64, u64) -> u64, M: Fn(u64, u64) -> u64, S: Fn(u64, u64) -> u64
        requires
            old(self).well_formed(),
            arithmetic.usable(),
        ensures
            final(self).well_formed(),
            final(self).counters().at_least(old(self).counters()),
    ;

    /// The solution of the system, once both passes are finished.
    fn back_substitute(&self) -> (solution: Option<Vec<u64>>)
        requires
            self.well_formed(),
    ;
}

} // verus!

//! The rounding arithmetic that the engine is handed.
//!
//! Division, multiplication and subtraction of binary64 values round, and
//! what they round to is not decided here. The engine takes the three
//! operations from its caller, as functions on bit patterns, and states its
//! results over whatever those functions promise.
use vstd::prelude::*;
use crate::binary64::spec_is_zero;

verus! {

/// Three operations on binary64 bit patterns.
pub struct Arithmetic<D, M, S> {
    /// `divide(a, b)` is the quotient `a / b`.
    pub divide: D,
    /// `multiply(a, b)` is the product `a * b`.
    pub multiply: M,
    /// `subtract(a, b)` is the difference `a - b`.
    pub subtract: S,
}

impl<D, M, S> Arithmetic<D, M, S> where
    D: Fn(u64, u64) -> u64,
    M: Fn(u64, u64) -> u64,
    S: Fn(u64, u64) -> u64,
 {
    /// Every operation may be called on every pair of patterns, division on
    /// every pair whose divisor is not zero.
    pub open spec fn usable(&self) -> bool {
        &&& forall|a: u64, b: u64| !spec_is_zero(b) ==> #[trigger] self.divide.requires((a, b))
        &&& forall|a: u64, b: u64| #[trigger] self.multiply.requires((a, b))
        &&& forall|a: u64, b: u64| #[trigger] self.subtract.requires((a, b))
    }

    /// `q` is a quotient of `a` by `b`.
    pub open spec fn quotient(&self, a: u64, b: u64, q: u64) -> bool {
        self.divide.ensures((a, b), q)
    }

    /// `p` is a product of `a` and `b`.
    pub open spec fn product(&self, a: u64, b: u64, p: u64) -> bool {
        self.multiply.ensures((a, b), p)
    }

    /// `d` is a difference of `a` and `b`.
    pub open spec fn difference(&self, a: u64, b: u64, d: u64) -> bool {
        self.subtract.ensures((a, b), d)
    }

    /// `out` is `target - factor * source`: some product of `factor` and
    /// `source`, taken from `target`.
    pub open spec fn reduced(&self, target: u64, factor: u64, source: u64, out: u64) -> bool {
        exists|p: u64| #[trigger] self.product(factor, source, p) && self.difference(target, p, out)
    }

    /// Bundles the three operations.
    pub fn new(divide: D, multiply: M, subtract: S) -> (arithmetic: Self)
        ensures
            arithmetic.divide == divide,
            arithmetic.multiply == multiply,
            arithmetic.subtract == subtract,
    {
        Arithmetic { divide, multiply, subtract }
    }

    /// `target - factor * source`, the product rounded before the
    /// subtraction.
    pub fn reduce(&self, target: u64, factor: u64, source: u64) -> (out: u64)
        requires
            self.usable(),
        ensures
            self.reduced(target, factor, source, out),
    {
        let scaled: u64 = (self.multiply)(factor, source);
        let out: u64 = (self.subtract)(target, scaled);
        assert(self.product(factor, source, scaled));
        out
    }
}

} // verus!

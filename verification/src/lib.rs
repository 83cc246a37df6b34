//! A stepping engine for Gaussian elimination with partial pivoting.
//!
//! The engine advances a dense matrix one row operation at a time and reports
//! each operation as a [`steps::Step`]. Matrix entries are IEEE 754 binary64
//! values held by their bit patterns: the engine decides which entries are
//! compared, combined and overwritten, and proves that it does so as stated,
//! while the rounding arithmetic itself is supplied by the caller as an
//! [`arithmetic::Arithmetic`].
pub mod arithmetic;
pub mod binary64;
pub mod dense;
pub mod matrix;
pub mod steps;
pub mod algorithms;
pub mod commands;

//! Elimination strategies and what they have in common.
pub mod common;
pub mod counting;
pub mod gauss;

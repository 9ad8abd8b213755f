//! Measures how a shrink search converges when the values under test carry an
//! ordering that consumes hidden state on every comparison.
pub mod bad_type;
pub mod checks;
pub mod engine;
pub mod report;
pub mod text;

//! Precomputed-answer lookup for unordered quadruples of decimal digits.
//!
//! A quadruple of digits is canonicalized into a dense index by sorting and
//! positional weighting; an immutable table of 10,000 slots holds one
//! precomputed solution set per index, and a write-once memoizing cache hands
//! out shared handles to materialized solution sets.

pub mod cache;
pub mod indexer;
pub mod table;

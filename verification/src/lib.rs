//! Spatial-relationship predicates over geometry columns.
//!
//! A predicate takes two columnar arguments, each a broadcast scalar or a full
//! column, aligns them to the batch length, decodes both into geometry arrays,
//! tests them row by row with null propagation, and hands back a boolean
//! column.

pub mod column;
pub mod error;
pub mod geometry;
pub mod intersects;
pub mod predicate;
pub mod signature;

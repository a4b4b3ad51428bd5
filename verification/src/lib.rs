//! Score intake for the H-measure, a cost-weighted measure of how well a
//! binary classifier separates its two classes.
//!
//! The measure is computed from two collections of scores, one per true
//! class. This library decides where those collections come from, reads
//! them out of a delimited table, and guards the rule that neither may be
//! empty. The numeric evaluation itself is floating point and lives with
//! the caller.

pub mod scores;
pub mod table;

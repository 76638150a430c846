//! Small dense matrices whose dimensions are part of the type.
//!
//! A [`matrix::Matrix`] stores `M` rows of `N` entries each, in row-major order.
//! Every operation carries a contract that is checked statically: accessors say
//! exactly which cell they read, iterators say in which order they yield, and the
//! algebraic operators say cell by cell what they compute and when the entry
//! type's arithmetic is defined.

pub mod error;
pub mod identity;
pub mod integral;
pub mod laws;
pub mod matrix;
pub mod recip;

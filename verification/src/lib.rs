//! Covers three circles by one circle, approximately: the circles are merged
//! pairwise in each of their six orderings, and the circles that the merges
//! yield are handed out as commands for a renderer.
//!
//! The library decides what is merged with what, in which order, and what
//! is drawn. How two circles are covered by one is left to the caller:
//! [`reduce::reduce`] takes that operation as a function and never looks
//! inside a circle.

pub mod command;
pub mod gating;
pub mod outcome;
pub mod permutation;
pub mod reduce;

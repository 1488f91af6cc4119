//! Decisions of the transition planner.
//!
//! The signal arithmetic works on floating-point numbers and stands outside;
//! what it yields comes in as spans of time and as the bits of single-precision
//! numbers, and every decision on it is made here.

pub mod alignment;
pub mod candidates;
pub mod energy;
pub mod follow;
pub mod guard;
pub mod incoming;
pub mod kinds;
pub mod markers;
pub mod plan;
pub mod planner;
pub mod positions;
pub mod timing;
pub mod track;
pub mod vocals;

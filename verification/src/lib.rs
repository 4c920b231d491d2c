//! Style cascade and box layout for a tree of user-interface elements.
//!
//! Lengths are whole numbers of logical units. Sums saturate at `u32::MAX`
//! and differences at zero, so every function here is total.

pub mod geometry;
pub mod style;
pub mod dom;
pub mod words;
pub mod cascade;
pub mod layout;

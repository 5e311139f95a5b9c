//! Image variants.

pub mod processing;

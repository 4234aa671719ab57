//! JSON values and their numbers.

pub mod binary64;
pub mod bridge;

//! Commitments to byte strings built on the SWIFFT compression function.
pub mod blocks;
pub mod chain;
pub mod digest;
pub mod error;
pub mod laws;
pub mod swifft;
pub mod traits;

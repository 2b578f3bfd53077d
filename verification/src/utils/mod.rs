//! Helpers shared by the world tooling.
pub mod selector;

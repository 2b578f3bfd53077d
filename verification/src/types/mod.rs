//! Dojo type definitions read from felts, and the values they describe.
pub mod contract;
pub mod events;
pub mod parsed;
pub mod ty;

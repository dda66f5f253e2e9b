//! A small key/value publishing store with a bounded size.
//!
//! The store keeps its entries in creation order and drops the oldest ones
//! once it grows past a threshold; a gateway in front of it validates sizes
//! and gives every write replace semantics.

pub mod error;
pub mod store;
pub mod gateway;
pub mod volatile;
pub mod steps;
pub mod laws;

//! The video grid engine: filtering, sorting, DOM reconciliation, and element
//! state tracking for a virtual-scrolling grid.

pub mod engine;
pub mod filter;
pub mod reconcile;
pub mod sort;
pub mod state;
pub mod types;

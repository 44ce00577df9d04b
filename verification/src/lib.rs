//! Core logic of a local video library: a content-addressed, size-bounded
//! thumbnail cache with LRU eviction, the arithmetic of frame extraction
//! (timestamps, seeking, blank-frame detection, raster handling), the
//! thumbnail generation flow that composes them, a directory-scan record
//! builder, and a virtual-scrolling grid engine (filtering, sorting, DOM
//! reconciliation, element state tracking).
//!
//! All I/O (filesystem, container demuxing and decoding) is performed by the
//! host around this crate; the functions here compute keys, paths, plans and
//! decisions from plain values. Calls into outside crates that only compute
//! (hashing, image resampling and encoding) are made behind trusted wrappers.

pub mod cache;
pub mod extract;
pub mod generate;
pub mod grid;
pub mod raster;
pub mod scan;
pub mod types;
pub mod util;

//! Tiles, geometry, the object store and the spatial index.

pub mod coord;
pub mod loader;
pub mod mmap;
pub mod serialization;
pub mod spatial;
pub mod types;

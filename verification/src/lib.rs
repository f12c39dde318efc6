//! Map tile rendering for OpenStreetMap way geometry: tile addressing, the
//! binary object store, the spatial tile index, and the decisions of the
//! rendering engine and of the tile service.

pub mod data;
pub mod encoding;
pub mod projection;
pub mod renderer;
pub mod server;

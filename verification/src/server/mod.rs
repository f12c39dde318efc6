//! The decisions of the tile service.

pub mod handlers;

//! Encoding a rendered tile for the client.

pub mod png;

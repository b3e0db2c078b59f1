//! What the HTTP API computes from stored and buffered data.

pub mod checks;
pub mod status;

//! Operation dispatch against the sealed route tables.
//!
//! Three host operations drive everything: looking a child up, listing
//! children, and reading or opening a file. Each is split where a handler
//! runs: the router decides which handler answers, the caller runs it, and a
//! finishing function turns its projection into the answer.

pub mod laws;
pub mod list;
pub mod listing_laws;
pub mod lookup;
pub mod read;
pub mod resolution_laws;
pub mod route_shape;
pub mod static_shape;

//! omnifs provider SDK: teach the omnifs filesystem a new region of the
//! world.
//!
//! The host mounts a provider, sends it browse operations (lookup a child,
//! list a directory, read a file), and runs every side effect (HTTP, git,
//! blobs) on the provider's behalf through a strict request/response callout
//! protocol. Providers never open sockets, never touch credentials, and never
//! cache: the host owns trust, caching, and I/O; the provider owns meaning
//! (what paths exist and what bytes they hold).
//!
//! # Routes, captures, and dispatch
//!
//! Templates are absolute paths with literal segments and captures:
//! `/items/{id}`, prefix captures like `/@{resolver}` or `/v{version}`, and
//! a trailing multi-segment rest capture `/{*rest}`. A parse rejection of a
//! typed key makes a route a non-candidate (falling through to the
//! next-most-specific route, not to "not found").
//!
//! - Any registered route's literal prefix is auto-navigable.
//! - `lookup` is the authoritative name oracle; a listing may be
//!   non-exhaustive.
//! - Listings merge a handler's enumeration with literal sibling routes
//!   registered at the same depth.
//!
//! # The steps of an operation
//!
//! Nothing here waits or performs I/O. Where an operation needs a handler, a
//! load or the host, it stops with a value that says what to run, and a
//! second function takes the outcome and goes on.
//!
//! # Traits for providers
//!
//! Providers implement [`object::Object`], [`object::Key`],
//! [`captures::FromCaptures`], [`endpoint::Endpoint`] and the like. The spec
//! functions of these traits have defaults, so that a provider in ordinary
//! Rust writes the executable methods alone; a verified provider overrides
//! them with what its methods do.

pub mod async_runtime;
pub mod blob;
pub mod browse;
pub mod captures;
pub mod config;
pub mod content_type;
pub mod cx;
pub mod endpoint;
pub mod error;
pub mod fetch;
pub mod file_attrs;
pub mod git;
pub mod handler;
pub mod headers;
pub mod helpers;
pub mod http_endpoint;
pub mod http_laws;
pub mod identity;
pub mod init;
pub mod object;
pub mod path;
pub mod projection;
pub mod projection_laws;
pub mod range_handles;
pub mod rate_limit;
pub mod repr;
pub mod router;
pub mod runtime_laws;
pub mod text;
pub mod time;
pub mod wire;

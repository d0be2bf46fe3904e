//! The declarative provider router.

pub mod dispatch;
pub mod facets;
pub mod handlers;
pub mod mount;
pub mod mount_laws;
pub mod object;
pub mod object_laws;
pub mod object_route;
pub mod pattern;
pub mod pattern_laws;
pub mod projection;
pub mod register;

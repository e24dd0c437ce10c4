//! Verified core of the native host process for a desktop crawler
//! application.
//!
//! The host's frontend-facing commands are thin wrappers around the items
//! here: the network-destination guard ([`guard::validate_url`]), the
//! in-memory download registry ([`store`]), the download identifiers derived
//! from clock readings ([`ident`]), and the static payloads ([`info`]).
//! The desktop-shell wiring (event loop, command bridge, backend-process
//! launch, logging) lives outside the verified library.

pub mod guard;
pub mod ident;
pub mod info;
pub mod store;
pub mod text;

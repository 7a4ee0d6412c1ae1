//! A minimal static-content HTTP/1.0 server core.
//!
//! The library holds the verified logic of an event-driven file server:
//! request-line parsing, path sandboxing, a modification-time-validated
//! content cache, directory-listing synthesis, and response assembly.
//! Socket and filesystem I/O live outside the library; the request
//! pipeline is driven as a step machine that asks for one filesystem
//! operation at a time and is handed its outcome.

pub mod cache;
pub mod errors;
pub mod handler;
pub mod html;
pub mod laws;
pub mod parse;
pub mod resolve;
pub mod response;
pub mod session;
pub mod text;

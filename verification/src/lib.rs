//! Job registry and lifecycle manager for a local download orchestrator.
//!
//! The library keeps an in-memory registry of download jobs, drives each job
//! through the lifecycle Pending -> Running -> (Completed | Failed), classifies
//! the outcome of the external download tool, parses the tool's profile
//! listing, and builds the uniform response envelopes of the HTTP surface.
//! All I/O (the HTTP server, the subprocess spawns, the push channel) lives
//! outside; the library works on plain values and is verified.

pub mod job;
pub mod text;
pub mod numfmt;
pub mod lifecycle;
pub mod store;
pub mod profiles;
pub mod response;
pub mod token;
mod ext;

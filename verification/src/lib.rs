//! A minimal centralized access gate: it authenticates a user with a single
//! shared password and presents a dashboard of downstream services that have
//! registered themselves with it.
//!
//! The verified core consists of three leaves and their composition:
//! - [`gate`]: the credential gate, an exact string comparison against the
//!   configured password;
//! - [`registry`]: the in-memory mapping from a domain to its list of
//!   (service name, service URL) pairs, with last-writer-wins upsert
//!   semantics;
//! - [`render`]: the delegation renderer, a pure function from a registry
//!   snapshot and the shared secret to the dashboard HTML;
//! - [`config`]: the documented fallback values for unset configuration.
//!
//! HTTP transport, environment access and JSON decoding live outside the
//! library; handlers pass plain values in and take plain values back.

pub mod config;
pub mod gate;
pub mod registry;
pub mod render;

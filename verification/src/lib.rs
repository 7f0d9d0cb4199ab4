//! A from-scratch HTTP/1.1 ingestion and dispatch core.
//!
//! The crate accepts parsed connection data, turns raw request text into a
//! wire-model [`http::Request`], matches it against a registered route table,
//! and runs a continuation-passing middleware chain ending in a controller.
//! Admission control and round-robin shard assignment are modelled as
//! verified state machines; the surrounding socket I/O lives outside the
//! library and hands in plain values.

pub mod admission;
pub mod distributor;
pub mod http;
pub mod pagination;
pub mod parser;
pub mod routing;
pub mod scaffold;
pub mod user;

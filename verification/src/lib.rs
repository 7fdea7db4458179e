//! Core of a multi-instance event-registration service: a durable, ordered
//! change log, a per-instance poller that turns log records into local
//! effects, a TTL- and capacity-bounded cache with channel-based
//! invalidation, an in-process publish/subscribe fan-out, and per-client
//! push-stream sessions.
//!
//! Everything here works on plain values; the embedding supplies storage,
//! transport, clocks and identifiers at the edges.

pub mod broadcaster;
pub mod cache;
pub mod log;
pub mod models;
pub mod notification;
pub mod poller;
pub mod session;
pub mod validation;

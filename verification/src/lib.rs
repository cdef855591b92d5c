//! Dynamic DNS reconciliation: keeps one provider-side DNS record in step with
//! the caller's public address.
//!
//! The crate holds the decisions only. Network calls are the embedding
//! program's business: it performs each request the state machine asks for and
//! hands the answer back as an event.

pub mod config;
pub mod record;
pub mod resolver;
pub mod reconciler;
pub mod scheduler;
pub mod store;
pub mod laws;

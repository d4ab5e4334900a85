//! Webhook event query and retry engine.
//!
//! An outbound-webhook platform records every delivery attempt of every event
//! it emits. This crate holds the pure core of that bookkeeping:
//!
//! * [`constraints`] resolves a caller's raw filter constraints into exactly
//!   one lookup strategy (a generic range filter, or a direct object-id
//!   lookup that takes precedence over everything else);
//! * [`store`] models the append-only event store, the listing queries it
//!   answers, and the delivery-attempt chains that group retries of one
//!   logical event;
//! * [`retry`] validates and records manual retries of failed deliveries
//!   without ever mutating delivery history;
//! * [`types`] holds the shared data types, among them the opaque wrapper
//!   for sensitive payloads, and [`requests`] the merchant-scoped request
//!   bundles; [`seq_facts`] collects the sequence lemmas the proofs use.
//!
//! Everything that talks to the outside world (HTTP transport, persistence
//! drivers, serialization) lives outside this crate and exchanges plain
//! values with it.

pub mod constraints;
pub mod requests;
pub mod retry;
pub mod seq_facts;
pub mod store;
pub mod types;

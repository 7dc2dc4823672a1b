//! An in-process publish/subscribe event bus for a small git platform.
//!
//! Producers publish event envelopes onto a bounded queue; a single consumer
//! drains the queue and fans each envelope out to every registered handler
//! whose filter matches. Filters select on coarse event type, repository
//! name, and branch glob patterns. The bus records delivery metrics and
//! isolates handler failures from one another.
//!
//! The bus state itself is synchronous: the asynchronous runtime around it
//! (the ingestion loop, the concurrent fan-out, the fan-out deadline) drives
//! it from outside and feeds handler outcomes back in.

pub mod auth;
pub mod bus;
pub mod events;
pub mod filter;
pub mod glob;
pub mod metrics;
pub mod queue;
pub mod registry;
pub mod types;

//! The core of a live order-book relay: one aggregator that applies depth
//! updates to a single market view with bounded spread and volume
//! histories, and a hub that fans copies of that view out to subscribers
//! with bounded, drop-oldest buffers.
pub mod bounded;
mod clock;
pub mod hub;
pub mod market;

//! Chaos-game point clouds: the particle and transform data model, the
//! partition of a particle population over parallel workers, the order in
//! which a worker emits records, the aggregator that merges the workers'
//! messages into one byte stream, and the fixed-width record layout.
//!
//! Numbers are IEEE-754 single-precision values held by their bit patterns.
//! The library moves, frames and orders them; it never computes with them.

pub mod aggregator;
pub mod connection;
pub mod interleaving;
pub mod partition;
pub mod types;
pub mod variations;
pub mod wire;
pub mod worker;

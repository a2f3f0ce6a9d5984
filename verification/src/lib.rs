//! A single-producer single-consumer ring buffer over a fixed-capacity
//! region of slots.
//!
//! Positions are tracked in an extended index domain of size twice the
//! capacity, so that an empty buffer (`read == write`) and a full one
//! (`write` has lapped `read` by exactly the capacity) stay distinguishable
//! without a separate element counter. The physical slot of a position `p`
//! is `p` reduced modulo the capacity.

pub mod consumer;
pub mod laws;
pub mod producer;
pub mod rb;
pub mod storage;
pub mod utils;

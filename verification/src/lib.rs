//! Control layer for embedded network engine instances.
//!
//! A managed host application starts, stops, reloads and queries native
//! engine instances (a tunneling proxy and a DNS-over-HTTPS relay)
//! through a small boundary. This crate holds the verified core of that
//! boundary: the per-handle lifecycle registry, the callback and
//! host-runtime registration protocol, and the construction and
//! validation of a DoH relay configuration from raw string inputs,
//! including its fragmentation-range grammar and its address grammar.
//! The engines themselves are external collaborators; the boundary
//! marshaling around them is ordinary unverified code.

pub mod addr;
pub mod callback;
pub mod doh;
pub mod fragment;
pub mod lifecycle;
pub mod runtime;
pub mod text;

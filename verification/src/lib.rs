//! A small runtime core for assembling networked request/response services:
//! a keyed registry of service instances, a fixed-point dependency resolver,
//! a load-balancing service pool, a hierarchical shutdown controller, and the
//! session layer that frames byte streams and wraps results in wire envelopes.

pub mod api;
pub mod borrow;
pub mod buffer;
pub mod codec;
pub mod connection;
pub mod pool;
pub mod registry;
pub mod resolver;
pub mod service;
pub mod session;
pub mod shutdown;

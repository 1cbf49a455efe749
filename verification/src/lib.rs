//! Synchronises secret material from remote backends into platform secrets:
//! the resolved secret map, its fingerprint, the per-backend resolvers, the
//! value cache and the reconciliation state machine.

pub mod backend;
pub mod cache;
pub mod crd;
pub mod decimal;
pub mod finalizer;
pub mod json;
pub mod key_order;
pub mod manager;
pub mod metrics;
pub mod plugins;
pub mod secret;
pub mod sorted_map;
pub mod value;

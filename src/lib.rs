//! Core of an edge-triggered, one-shot TCP server engine: readiness
//! classification, the live connection registry, the per-connection error
//! latch and the decisions of the worker passes.

pub mod config;
pub mod latch;
pub mod readiness;
pub mod registry;
mod slab;
pub mod worker;

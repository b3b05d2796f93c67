//! The store, the configuration, and the per-request context.

pub mod config;
pub mod context;
pub mod shared_context;
pub mod store;
pub mod text;

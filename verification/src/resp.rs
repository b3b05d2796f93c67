//! The wire protocol: typed protocol values, the error taxonomy, and the
//! codec between raw text and values.

pub mod command;
pub mod errors;
pub mod types;

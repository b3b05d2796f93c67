//! The data stored under a key.

pub mod value;

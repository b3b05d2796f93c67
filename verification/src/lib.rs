//! A minimal in-memory key-value server core speaking a RESP-like wire
//! protocol: a codec between raw text and typed protocol values, a
//! TTL-aware string store, and a command set (PING, ECHO, GET, SET, INFO)
//! with per-command arity checking, all with verified contracts. The
//! framing is line-oriented text, so length fields count characters
//! (for ASCII payloads, equally bytes).

pub mod commands;
pub mod laws;
pub mod models;
pub mod resp;
pub mod server;
pub mod utils;

//! Core logic of a multi-protocol mail server: the JMAP request parser and
//! method dispatcher, the gossip peer registry with its heartbeat window, and
//! the decisions of the authentication coordinator.

pub mod auth;
pub mod common;
pub mod error;
pub mod gossip;
pub mod json;
pub mod keys;
pub mod method;
pub mod object;
pub mod request;
pub mod text;
pub mod types;

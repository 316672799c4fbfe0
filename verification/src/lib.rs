//! Streaming market-data client core for a push-based exchange feed.
//!
//! The library decodes the exchange's compact positional wire format into
//! typed domain events, keeps a registry of channel subscribers, and drives
//! the connection state machine. Transport I/O (sockets, timers, threads)
//! lives outside this crate; the handler here decides, and the caller
//! performs the resulting actions.

pub mod client;
pub mod error;
pub mod handler;
pub mod json;
pub mod types;

pub use client::{Message, Subscribtion};
pub use json::JsonVal;

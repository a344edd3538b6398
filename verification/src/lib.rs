//! A message-stream bot core that strips tracking query parameters from URLs.
//!
//! The library holds the verified logic: the URL sanitization engine, the
//! duplicate-suppression cache, reply composition, and the stream-consumer
//! state machine. Transport, signing and process setup live outside it.

pub mod compose;
pub mod consumer;
pub mod dedup;
pub mod rules;
pub mod sanitize;
pub mod strutil;

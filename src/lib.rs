//! A persistent operator conversation with the cortex: an append-only message
//! log grouped into threads, the rendering of a channel's recent timeline into
//! prose, the normalization of the system prompt's slots, and the steps of one
//! chat request, each with its contract.

pub mod event;
pub mod message;
pub mod outside;
pub mod prompt;
pub mod session;
pub mod store;
pub mod transcript;

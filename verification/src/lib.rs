//! A transport-agnostic connection pipeline: a cursor-based byte buffer, a
//! framed message codec, the shared per-connection handle and the
//! event-driven connection engine.

pub mod error;
pub mod byte_buf;
pub mod context;
pub mod encoder;
pub mod decoder;
pub mod message;
pub mod bootstrap;

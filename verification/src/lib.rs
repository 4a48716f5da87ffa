//! Core of a peer-to-peer message transport: a tag-tracked, per-peer
//! message delivery engine over multiplexed substreams.
//!
//! The crate holds the engine's logic: the signed envelope codec, the
//! per-peer substream cache, the outbound dispatch and inbound decode
//! decisions with their failure classification, and the event fan-out.
//! The asynchronous plumbing around it (channels, sockets, task spawning)
//! lives outside; it feeds the engine plain values and carries out the
//! actions the engine decides on.

pub mod bytesutil;
pub mod cache;
pub mod crypto;
pub mod engine;
pub mod envelope;
pub mod events;
pub mod frame;
pub mod message;
pub mod tag;

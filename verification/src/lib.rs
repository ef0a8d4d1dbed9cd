//! A UDP connection demultiplexer, modelled as verified state machines.
//!
//! A single bound UDP socket serves a family of per-peer streams. The
//! decision logic — which peer a datagram belongs to, how the producer and
//! each consumer rendezvous, when an idle stream times out, and how dropped
//! streams are reclaimed — lives here as plain, verified data structures and
//! step functions. The asynchronous socket plumbing that drives these
//! machines is ordinary unverified code layered on top.
//!
//! - [`addr`]: peer addresses as plain integers, the identity key.
//! - [`gate`]: the pair of one-shot latched signals that synchronise the
//!   acceptor with one consumer.
//! - [`registry`]: the map from live peer to its gate, with the
//!   deferred-deletion queue and its sweep.
//! - [`stream`]: the per-peer stream's read state machine — watchdog,
//!   subscription, truncating delivery.
//! - [`acceptor`]: classification of each peeked datagram: signal a known
//!   peer or mint, register and yield a new stream.
//! - [`engine`]: the composed protocol, one datagram at a time, with the
//!   delivery, framing and registration guarantees proved.
//! - [`client`]: the client-side connector's candidate planning and
//!   first-success / last-error-wins fallback.
//! - [`error`]: the error kinds the library reports.

pub mod acceptor;
pub mod addr;
pub mod client;
pub mod engine;
pub mod error;
pub mod gate;
pub mod registry;
pub mod stream;

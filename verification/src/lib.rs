//! Core of a bidirectional message relay: clients connect over a full-duplex
//! transport and every application message one client sends is broadcast to
//! all other currently connected clients.
//!
//! This crate holds the verified core — the connection registry, the
//! broadcast router, the connection lifecycle, and the client-side relay
//! computations. The asynchronous transport shell (listening, handshakes,
//! socket I/O) lives outside and drives this core with plain values.

pub mod channel;
pub mod frame;
pub mod lifecycle;
pub mod registry;
pub mod relay;
pub mod router;

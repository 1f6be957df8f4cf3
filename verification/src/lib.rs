//! Core of a small multiplayer shooter: the binary wire-message codec,
//! the server's authoritative player registry with spawn-point
//! allocation, destination routing for message fan-out, and the
//! decision logic of the client session bridge.
//!
//! Network transport (UDP sockets and the encrypted netcode channel)
//! and all presentation code live outside this crate; this crate works
//! on plain values handed across that boundary.

pub mod codec;
pub mod config;
pub mod float_bits;
pub mod input;
pub mod registry;
pub mod router;
pub mod session;

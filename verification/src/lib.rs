//! Core of a client/server state-replication layer for a multiplayer
//! simulation: session roles and their lifecycle, ownership classification of
//! replicated entities, a fixed-layout transform codec for the wire, a
//! fixed-point smoothing step that hides network jitter, and the handling of
//! peer connect/disconnect events.
//!
//! Transport I/O (sockets, handshakes) lives outside this crate; the library
//! works on plain values: byte buffers, peer identifiers, and transform
//! records whose fields carry 32-bit float bit patterns.

pub mod address;
pub mod codec;
pub mod connect;
pub mod errors;
pub mod registry;
pub mod replication;
pub mod session;
pub mod smoothing;

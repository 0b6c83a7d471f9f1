//! Core of a synchronized-playback session: one host owns the
//! authoritative player state and fans property changes out to every
//! connected peer, which mirrors them into its own local player.
//!
//! The crate covers the state-synchronization logic itself: the
//! property store, coalescing of high-frequency position updates, the
//! broadcast membership sweep, the wire-frame codec, the bridge to the
//! player's line-delimited JSON control protocol, and the peer
//! connection state machine. Transports, processes and file I/O live
//! with the caller, which feeds plain values in and carries frames and
//! command lines out.

pub mod error;

pub mod text;

pub mod store;

pub mod coalesce;

pub mod frame;

pub mod broadcast;

pub mod peer;

pub mod bridge;

pub mod path;

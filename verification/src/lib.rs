//! Core of a real-time chat relay: a registry mapping room keys to compact
//! numeric ids, a per-room actor owning a bounded history of recent messages
//! and the ordered roster of live participants, the codecs for the wire
//! frames, and the tagged result envelope of the lookup endpoints.
pub mod actor;
pub mod codec;
pub mod envelope;
pub mod message;
pub mod registry;
pub mod session;

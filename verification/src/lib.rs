//! A verified core for a derivatives-exchange client.
//!
//! The library holds the logic of the client and proves it: the canonical
//! request-signing scheme ([`sign`]), the frame codec that inflates and
//! classifies inbound traffic into typed events ([`codec`]), the channel
//! registry and the merge decision of the multiplexed event source
//! ([`registry`]), and the subscription protocol's handshake and
//! keepalive state machine ([`protocol`]). Socket and HTTP I/O live in a
//! thin host layer outside the library, which feeds frames in and carries
//! the decided frames out.

pub mod codec;
pub mod error;
pub mod models;
pub mod protocol;
pub mod registry;
pub mod sign;
pub mod text;

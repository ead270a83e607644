//! Core of a SaltyRTC signaling client: a side-effect-free state machine that
//! drives the handshake between an initiator and a responder through a
//! relaying server, over nonce-prefixed frames that are either plain,
//! public-key encrypted, or secret-key encrypted with a one-shot auth token.
//!
//! The library never performs I/O: frames come in as byte sequences and the
//! outbound frames are returned as values, so every state transition can be
//! checked and tested in isolation.

pub mod bytes;
pub mod boxes;
pub mod codec;
pub mod context;
pub mod cookie;
pub mod crypto;
pub mod csn;
pub mod errors;
pub mod messages;
pub mod nonce;
pub mod signaling;
pub mod state;
pub mod text;
pub mod types;

//! Protocol engine for an AO2-style courtroom-roleplay server.
//!
//! The crate covers the protocol surface of the server: the `#`-separated,
//! `%`-terminated wire framing and its incremental decoder/encoder, the typed
//! command model with strict arity and type validation, the per-connection
//! session state machine, the flood-guard admission policy, the master-server
//! heartbeat state machine, and the legacy obfuscation cipher. Transport and
//! game logic live outside; they hand byte buffers and plain values in and
//! take typed commands and plain values back.

pub mod bufext;
pub mod codec;
pub mod command;
pub mod config;
pub mod fantacrypt;
pub mod floodguard;
pub mod heartbeat;
pub mod multiclient;
pub mod session;
pub mod text;

//! Configuration consumed by the protocol core.
//!
//! The values here arrive already validated from the host program; the core
//! performs no file or format parsing itself and treats a `Config` as an
//! immutable, already-typed value.

use vstd::prelude::*;

verus! {

/// Per-category flood-guard parameters: at most `times_per_interval` actions
/// are admitted inside a window of `interval_length` seconds; exceeding that
/// mutes the category for `mute_length` seconds.
pub struct FloodGuardConfig {
    pub times_per_interval: u8,
    pub interval_length: u8,
    pub mute_length: u32,
}

/// General, client-facing server settings.
pub struct GeneralConfig {
    pub hostname: String,
    pub playerlimit: u8,
    pub port: u32,
    pub local: bool,
    pub modpass: String,
    pub motd: String,
    pub use_websockets: bool,
    pub websocket_port: u32,
}

/// Directory-service ("master server") registration settings.
pub struct MasterServerConfig {
    pub use_masterserver: bool,
    pub ip: String,
    pub port: u32,
    pub name: String,
    pub description: String,
}

/// The whole immutable configuration surface of the core.
pub struct Config {
    pub debug: bool,
    pub timeout: u32,
    pub multiclient_limit: u8,
    pub max_chars: u32,
    pub zalgo_tolerance: u8,
    pub general: GeneralConfig,
    pub masterserver: MasterServerConfig,
    pub wtce_floodguard: FloodGuardConfig,
    pub music_change_floodguard: FloodGuardConfig,
}

} // verus!

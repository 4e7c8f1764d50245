//! The per-connection session state machine. It owns the authentication
//! state and the per-category flood guards of one accepted connection,
//! performs the multiclient check at handshake, and guarantees that the
//! dispatch boundary only ever receives commands that passed schema
//! validation, authentication and flood-guard admission. The transport and
//! the game logic around it live in the host program.

use vstd::prelude::*;

use crate::command::{ClientCommand, ClientCommandV, ServerCommand};
use crate::config::Config;
use crate::floodguard::{guard_wf, spec_guard_step, time_in_range, FloodGuard};
use crate::multiclient::{counts_wf, spec_acquire, MulticlientRegistry};
use crate::text::{spec_u32_string, u32_to_string};

verus! {

/// A connection is unauthenticated until its handshake succeeds;
/// authenticated is the terminal operating state.
#[derive(Debug, Clone, Copy, PartialEq, Eq, Structural)]
pub enum AuthState {
    Unauthenticated,
    Authenticated,
}

/// Why the session refused a frame or must be torn down.
#[derive(Debug, Clone, Copy, PartialEq, Eq, Structural)]
pub enum SessionError {
    /// A command arrived before a successful handshake.
    NotHandshaked,
    /// A rate-limited command was denied by its flood guard.
    FloodGuardDenied,
    /// The handshake would exceed the per-address session limit; the
    /// connection is refused.
    MulticlientLimit,
    /// Too many consecutive malformed frames; the connection is torn down.
    ProtocolAbuse,
}

/// Per-connection state: identity, authentication, and one flood guard per
/// rate-limited command category.
pub struct ConnectionSession {
    pub session_id: u32,
    pub auth: AuthState,
    pub hdid: Option<String>,
    pub char_id: Option<u32>,
    pub ip_key: u64,
    pub wtce_guard: FloodGuard,
    pub music_guard: FloodGuard,
    pub consecutive_malformed: u32,
    pub malformed_limit: u32,
}

/// Both guards are well formed and the malformed counter has not passed its
/// fatal threshold.
pub open spec fn session_wf(s: ConnectionSession) -> bool {
    &&& guard_wf(s.wtce_guard)
    &&& guard_wf(s.music_guard)
    &&& s.consecutive_malformed <= s.malformed_limit
    &&& s.malformed_limit < u32::MAX
}

/// Whether a command is gated by the WTCE-button flood guard.
pub open spec fn is_wtce_category(c: ClientCommandV) -> bool {
    c is WTCEButtons
}

/// Whether a command is gated by the music-change flood guard.
pub open spec fn is_music_category(c: ClientCommandV) -> bool {
    c is PlaySong
}

/// The session's verdict on one validated command, given the multiclient
/// and flood-guard decisions: a handshake needs a free multiclient slot
/// (none is needed once authenticated); any other command needs
/// authentication first and its category's flood-guard admission.
pub open spec fn spec_session_verdict(
    auth: AuthState,
    acq_ok: bool,
    wtce_ok: bool,
    music_ok: bool,
    c: ClientCommandV,
) -> Result<(), SessionError> {
    match c {
        ClientCommandV::Handshake(_) => {
            if auth is Authenticated {
                Ok(())
            } else if acq_ok {
                Ok(())
            } else {
                Err(SessionError::MulticlientLimit)
            }
        },
        _ => {
            if auth is Unauthenticated {
                Err(SessionError::NotHandshaked)
            } else if is_wtce_category(c) && !wtce_ok {
                Err(SessionError::FloodGuardDenied)
            } else if is_music_category(c) && !music_ok {
                Err(SessionError::FloodGuardDenied)
            } else {
                Ok(())
            }
        },
    }
}

impl ConnectionSession {
    /// A fresh, unauthenticated session for one accepted connection.
    /// `malformed_limit` is the number of consecutive malformed frames that
    /// is fatal.
    pub fn new(session_id: u32, ip_key: u64, cfg: &Config, malformed_limit: u32) -> (s:
        ConnectionSession)
        requires
            malformed_limit < u32::MAX,
        ensures
            session_wf(s),
            s.session_id == session_id,
            s.ip_key == ip_key,
            s.auth == AuthState::Unauthenticated,
            s.hdid is None,
            s.char_id is None,
            s.consecutive_malformed == 0,
            s.malformed_limit == malformed_limit,
            s.wtce_guard.times_per_interval == cfg.wtce_floodguard.times_per_interval,
            s.wtce_guard.interval_length == cfg.wtce_floodguard.interval_length,
            s.wtce_guard.mute_length == cfg.wtce_floodguard.mute_length,
            s.wtce_guard.window_start is None && s.wtce_guard.muted_until is None,
            s.music_guard.times_per_interval == cfg.music_change_floodguard.times_per_interval,
            s.music_guard.interval_length == cfg.music_change_floodguard.interval_length,
            s.music_guard.mute_length == cfg.music_change_floodguard.mute_length,
            s.music_guard.window_start is None && s.music_guard.muted_until is None,
    {
        ConnectionSession {
            session_id,
            auth: AuthState::Unauthenticated,
            hdid: None,
            char_id: None,
            ip_key,
            wtce_guard: FloodGuard::new(&cfg.wtce_floodguard),
            music_guard: FloodGuard::new(&cfg.music_change_floodguard),
            consecutive_malformed: 0,
            malformed_limit,
        }
    }

    /// Applies authentication, the multiclient check and flood-guard
    /// admission to one validated command at time `now`. `Ok` hands the
    /// command on to the dispatch boundary; every `Err` says exactly why it
    /// was refused, as [`spec_session_verdict`] decides.
    pub fn on_command(
        &mut self,
        cmd: ClientCommand,
        registry: &mut MulticlientRegistry,
        now: u64,
    ) -> (r: Result<ClientCommand, SessionError>)
        requires
            session_wf(*old(self)),
            counts_wf(old(registry)@),
            time_in_range(now),
        ensures
            session_wf(*final(self)),
            counts_wf(final(registry)@),
            final(registry).spec_limit() == old(registry).spec_limit(),
            final(self).session_id == old(self).session_id,
            final(self).ip_key == old(self).ip_key,
            final(self).char_id == old(self).char_id,
            final(self).malformed_limit == old(self).malformed_limit,
            ({
                let acq = spec_acquire(
                    old(registry)@,
                    old(registry).spec_limit(),
                    old(self).ip_key,
                );
                let ws = spec_guard_step(old(self).wtce_guard, now);
                let ms = spec_guard_step(old(self).music_guard, now);
                let verdict = spec_session_verdict(
                    old(self).auth,
                    acq.1,
                    ws.1,
                    ms.1,
                    cmd@,
                );
                let fresh_handshake = cmd@ is Handshake && old(self).auth is Unauthenticated;
                &&& match r {
                    Ok(c) => verdict == Ok::<(), SessionError>(()) && c == cmd,
                    Err(e) => verdict == Err::<(), SessionError>(e),
                }
                &&& final(registry)@ == (if fresh_handshake {
                    acq.0
                } else {
                    old(registry)@
                })
                &&& final(self).auth == (if fresh_handshake && acq.1 {
                    AuthState::Authenticated
                } else {
                    old(self).auth
                })
                &&& (if fresh_handshake && acq.1 {
                    match cmd@ {
                        ClientCommandV::Handshake(hv) => final(self).hdid matches Some(s) && s@
                            == hv,
                        _ => false,
                    }
                } else {
                    final(self).hdid == old(self).hdid
                })
                &&& final(self).wtce_guard == (if !(cmd@ is Handshake) && old(self).auth
                    is Authenticated && is_wtce_category(cmd@) {
                    ws.0
                } else {
                    old(self).wtce_guard
                })
                &&& final(self).music_guard == (if !(cmd@ is Handshake) && old(self).auth
                    is Authenticated && is_music_category(cmd@) {
                    ms.0
                } else {
                    old(self).music_guard
                })
                &&& final(self).consecutive_malformed == (if verdict is Ok {
                    0
                } else {
                    old(self).consecutive_malformed
                })
            }),
    {
        match &cmd {
            ClientCommand::Handshake(h) => {
                match self.auth {
                    AuthState::Authenticated => {
                        self.consecutive_malformed = 0;
                        Ok(cmd)
                    },
                    AuthState::Unauthenticated => {
                        if registry.try_acquire(self.ip_key) {
                            self.auth = AuthState::Authenticated;
                            self.hdid = Some(h.clone());
                            self.consecutive_malformed = 0;
                            Ok(cmd)
                        } else {
                            Err(SessionError::MulticlientLimit)
                        }
                    },
                }
            },
            _ => {
                match self.auth {
                    AuthState::Unauthenticated => Err(SessionError::NotHandshaked),
                    AuthState::Authenticated => {
                        let admitted = match &cmd {
                            ClientCommand::WTCEButtons(_) => self.wtce_guard.on_action(now),
                            ClientCommand::PlaySong(_, _) => self.music_guard.on_action(now),
                            _ => true,
                        };
                        if admitted {
                            self.consecutive_malformed = 0;
                            Ok(cmd)
                        } else {
                            Err(SessionError::FloodGuardDenied)
                        }
                    },
                }
            },
        }
    }

    /// Records one malformed frame. The frame itself was already discarded
    /// by the caller; the session only survives a bounded run of them, and
    /// the run that reaches `malformed_limit` is fatal.
    pub fn on_malformed(&mut self) -> (r: Result<(), SessionError>)
        requires
            session_wf(*old(self)),
        ensures
            session_wf(*final(self)),
            final(self).session_id == old(self).session_id,
            final(self).auth == old(self).auth,
            final(self).hdid == old(self).hdid,
            final(self).char_id == old(self).char_id,
            final(self).ip_key == old(self).ip_key,
            final(self).wtce_guard == old(self).wtce_guard,
            final(self).music_guard == old(self).music_guard,
            final(self).malformed_limit == old(self).malformed_limit,
            ({
                let fatal = old(self).consecutive_malformed >= old(self).malformed_limit;
                &&& r == (if fatal {
                    Err::<(), SessionError>(SessionError::ProtocolAbuse)
                } else {
                    Ok::<(), SessionError>(())
                })
                &&& final(self).consecutive_malformed == (if fatal {
                    old(self).consecutive_malformed
                } else {
                    (old(self).consecutive_malformed + 1) as u32
                })
            }),
    {
        if self.consecutive_malformed >= self.malformed_limit {
            Err(SessionError::ProtocolAbuse)
        } else {
            self.consecutive_malformed = self.consecutive_malformed + 1;
            Ok(())
        }
    }

    /// The reply the handshake dispatch sends back: this session's
    /// identifier under the handshake identifier.
    pub fn handshake_reply(&self) -> (r: ServerCommand)
        ensures
            r@ == crate::command::ServerCommandV::Handshake(
                spec_u32_string(self.session_id as int),
            ),
    {
        ServerCommand::Handshake(u32_to_string(self.session_id))
    }
}

/// The protocol server: it owns the validated configuration; the accept
/// loop around it lives in the host program.
pub struct AOServer {
    config: Config,
}

impl AOServer {
    /// The configuration the server was built with.
    pub closed spec fn spec_config(&self) -> Config {
        self.config
    }

    pub fn new(config: Config) -> (s: AOServer)
        ensures
            s.spec_config() == config,
    {
        AOServer { config }
    }

    /// Read access to the configuration.
    pub fn config(&self) -> (c: &Config)
        ensures
            *c == self.spec_config(),
    {
        &self.config
    }
}

} // verus!

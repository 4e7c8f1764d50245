use rusttorney::command::ClientCommand;
use rusttorney::config::{Config, FloodGuardConfig, GeneralConfig, MasterServerConfig};
use rusttorney::floodguard::FloodGuard;
use rusttorney::heartbeat::{heartbeat_step, pack_server_info, MasterServerClientState,
    MasterServerCommand};
use rusttorney::multiclient::MulticlientRegistry;
use rusttorney::session::{AOServer, AuthState, ConnectionSession, SessionError};

fn test_config() -> Config {
    Config {
        debug: false,
        timeout: 250,
        multiclient_limit: 2,
        max_chars: 256,
        zalgo_tolerance: 3,
        general: GeneralConfig {
            hostname: "$H".to_string(),
            playerlimit: 100,
            port: 27018,
            local: false,
            modpass: "mod".to_string(),
            motd: "Welcome to my server!".to_string(),
            use_websockets: true,
            websocket_port: 50001,
        },
        masterserver: MasterServerConfig {
            use_masterserver: true,
            ip: "master.aceattorneyonline.com".to_string(),
            port: 27016,
            name: "My server".to_string(),
            description: "My server description!".to_string(),
        },
        wtce_floodguard: FloodGuardConfig {
            times_per_interval: 5,
            interval_length: 10,
            mute_length: 1000,
        },
        music_change_floodguard: FloodGuardConfig {
            times_per_interval: 3,
            interval_length: 20,
            mute_length: 180,
        },
    }
}

#[test]
fn flood_guard_admits_then_mutes_then_recovers() {
    let cfg = FloodGuardConfig { times_per_interval: 3, interval_length: 20, mute_length: 180 };
    let mut g = FloodGuard::new(&cfg);
    // Three actions inside one interval are admitted.
    assert!(g.on_action(100));
    assert!(g.on_action(105));
    assert!(g.on_action(110));
    // The fourth inside the same interval is denied and starts the mute.
    assert!(!g.on_action(112));
    // Anything before the mute expires is denied, even outside the window.
    assert!(!g.on_action(150));
    assert!(!g.on_action(291));
    // The first action at mute expiry is admitted and opens a fresh window.
    assert!(g.on_action(292));
    assert!(g.on_action(293));
}

#[test]
fn flood_guard_expired_window_resets_count() {
    let cfg = FloodGuardConfig { times_per_interval: 2, interval_length: 10, mute_length: 60 };
    let mut g = FloodGuard::new(&cfg);
    assert!(g.on_action(0));
    assert!(g.on_action(1));
    // The window [0, 10) has expired; a new one opens.
    assert!(g.on_action(10));
    assert!(g.on_action(11));
    assert!(!g.on_action(12));
}

#[test]
fn multiclient_third_handshake_refused_until_release() {
    let mut reg = MulticlientRegistry::new(2);
    let ip: u64 = 0xc0a80017;
    assert!(reg.try_acquire(ip));
    assert!(reg.try_acquire(ip));
    assert_eq!(reg.active(ip), 2);
    // The third concurrent handshake from the same address is refused.
    assert!(!reg.try_acquire(ip));
    assert_eq!(reg.active(ip), 2);
    // Another address is unaffected.
    assert!(reg.try_acquire(ip + 1));
    // Once one session disconnects, a new handshake succeeds again.
    reg.release(ip);
    assert_eq!(reg.active(ip), 1);
    assert!(reg.try_acquire(ip));
    assert!(!reg.try_acquire(ip));
}

#[test]
fn session_rejects_commands_before_handshake() {
    let cfg = test_config();
    let mut reg = MulticlientRegistry::new(cfg.multiclient_limit);
    let mut s = ConnectionSession::new(1, 7, &cfg, 3);
    assert_eq!(s.auth, AuthState::Unauthenticated);
    let r = s.on_command(ClientCommand::KeepAlive, &mut reg, 0);
    assert!(matches!(r, Err(SessionError::NotHandshaked)));
    assert_eq!(s.auth, AuthState::Unauthenticated);
    // The handshake authenticates and is handed on to dispatch.
    let r = s.on_command(ClientCommand::Handshake("hd".to_string()), &mut reg, 1);
    assert!(matches!(r, Ok(ClientCommand::Handshake(h)) if h == "hd"));
    assert_eq!(s.auth, AuthState::Authenticated);
    assert_eq!(s.hdid.as_deref(), Some("hd"));
    // Now ordinary commands pass.
    let r = s.on_command(ClientCommand::KeepAlive, &mut reg, 2);
    assert!(matches!(r, Ok(ClientCommand::KeepAlive)));
}

#[test]
fn session_handshake_honours_multiclient_limit() {
    let cfg = test_config();
    let mut reg = MulticlientRegistry::new(cfg.multiclient_limit);
    let mut s1 = ConnectionSession::new(1, 7, &cfg, 3);
    let mut s2 = ConnectionSession::new(2, 7, &cfg, 3);
    let mut s3 = ConnectionSession::new(3, 7, &cfg, 3);
    assert!(s1.on_command(ClientCommand::Handshake("a".to_string()), &mut reg, 0).is_ok());
    assert!(s2.on_command(ClientCommand::Handshake("b".to_string()), &mut reg, 0).is_ok());
    // A third concurrent handshake from the same address is refused and the
    // session stays unauthenticated.
    let r = s3.on_command(ClientCommand::Handshake("c".to_string()), &mut reg, 0);
    assert!(matches!(r, Err(SessionError::MulticlientLimit)));
    assert_eq!(s3.auth, AuthState::Unauthenticated);
    // After one disconnect the slot is free again.
    reg.release(7);
    assert!(s3.on_command(ClientCommand::Handshake("c".to_string()), &mut reg, 0).is_ok());
}

#[test]
fn session_applies_flood_guards_per_category() {
    let cfg = test_config();
    let mut reg = MulticlientRegistry::new(cfg.multiclient_limit);
    let mut s = ConnectionSession::new(1, 9, &cfg, 3);
    assert!(s.on_command(ClientCommand::Handshake("hd".to_string()), &mut reg, 0).is_ok());
    // music_change_floodguard admits 3 per 20 s.
    assert!(s.on_command(ClientCommand::PlaySong(1, 0), &mut reg, 10).is_ok());
    assert!(s.on_command(ClientCommand::PlaySong(2, 0), &mut reg, 11).is_ok());
    assert!(s.on_command(ClientCommand::PlaySong(3, 0), &mut reg, 12).is_ok());
    let r = s.on_command(ClientCommand::PlaySong(4, 0), &mut reg, 13);
    assert!(matches!(r, Err(SessionError::FloodGuardDenied)));
    // The WTCE guard is independent and still admits.
    assert!(s.on_command(ClientCommand::WTCEButtons("wt".to_string()), &mut reg, 13).is_ok());
    // Unlimited categories are never gated.
    assert!(s.on_command(ClientCommand::KeepAlive, &mut reg, 13).is_ok());
}

#[test]
fn session_tears_down_after_consecutive_malformed_frames() {
    let cfg = test_config();
    let mut reg = MulticlientRegistry::new(cfg.multiclient_limit);
    let mut s = ConnectionSession::new(1, 9, &cfg, 2);
    assert_eq!(s.on_malformed(), Ok(()));
    assert_eq!(s.on_malformed(), Ok(()));
    // The run that reaches the limit is fatal.
    assert_eq!(s.on_malformed(), Err(SessionError::ProtocolAbuse));
    // A successfully handled command resets the run.
    let mut s = ConnectionSession::new(1, 9, &cfg, 2);
    assert_eq!(s.on_malformed(), Ok(()));
    assert!(s.on_command(ClientCommand::Handshake("h".to_string()), &mut reg, 0).is_ok());
    assert_eq!(s.on_malformed(), Ok(()));
    assert_eq!(s.on_malformed(), Ok(()));
    assert_eq!(s.on_malformed(), Err(SessionError::ProtocolAbuse));
}

#[test]
fn session_handshake_reply_carries_session_id() {
    let cfg = test_config();
    let s = ConnectionSession::new(1111, 9, &cfg, 3);
    let reply = s.handshake_reply();
    assert_eq!(reply.ident(), "HI");
    assert_eq!(reply.extract_args(), Some(vec!["1111"]));
}

#[test]
fn server_owns_its_config() {
    let server = AOServer::new(test_config());
    assert_eq!(server.config().general.port, 27018);
    assert_eq!(server.config().masterserver.name, "My server");
}

#[test]
fn heartbeat_check_emits_one_ping_and_waits_for_pong() {
    let cfg = test_config();
    let (st, out) = heartbeat_step(
        MasterServerClientState::WaitCommand,
        &MasterServerCommand::Check,
        &cfg,
        "rusttorney",
    );
    assert_eq!(st, MasterServerClientState::WaitPong);
    assert_eq!(out.as_deref(), Some("PING#%"));
    // The pong returns to waiting for commands, sending nothing.
    let (st, out) = heartbeat_step(st, &MasterServerCommand::Pong, &cfg, "rusttorney");
    assert_eq!(st, MasterServerClientState::WaitCommand);
    assert_eq!(out, None);
    // A pong out of turn is an anomaly: state unchanged, nothing sent.
    let (st, out) = heartbeat_step(st, &MasterServerCommand::Pong, &cfg, "rusttorney");
    assert_eq!(st, MasterServerClientState::WaitCommand);
    assert_eq!(out, None);
}

#[test]
fn heartbeat_noserv_reannounces_in_any_state() {
    let cfg = test_config();
    // The announced port is this server's own listening port, not the
    // directory service's (the two differ in the test config).
    let expected = "SCC#27018&50001#My server#My server description!#rusttorney#%";
    for st in [MasterServerClientState::WaitCommand, MasterServerClientState::WaitPong] {
        let (next, out) = heartbeat_step(st, &MasterServerCommand::NOSERV, &cfg, "rusttorney");
        assert_eq!(next, st);
        assert_eq!(out.as_deref(), Some(expected));
    }
    // Unrecognized input is ignored.
    let (next, out) = heartbeat_step(
        MasterServerClientState::WaitPong,
        &MasterServerCommand::Other("junk".to_string()),
        &cfg,
        "rusttorney",
    );
    assert_eq!(next, MasterServerClientState::WaitPong);
    assert_eq!(out, None);
}

#[test]
fn pack_server_info_omits_websocket_port_when_disabled() {
    let mut cfg = test_config();
    assert_eq!(
        pack_server_info(&cfg, "soft"),
        "SCC#27018&50001#My server#My server description!#soft#%"
    );
    cfg.general.use_websockets = false;
    assert_eq!(
        pack_server_info(&cfg, "soft"),
        "SCC#27018#My server#My server description!#soft#%"
    );
}

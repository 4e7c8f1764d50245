//! The master-server heartbeat state machine: the decisions of the
//! long-lived outbound connection that keeps this server listed with the
//! directory service. The host program reads one directory-service command,
//! asks [`heartbeat_step`] for the successor state and the reply to send,
//! performs the send, and repeats; reconnecting after a transport failure is
//! the host's affair, not the state machine's.

use vstd::prelude::*;

use crate::config::Config;
use crate::text::{spec_u32_string, u32_to_string};

verus! {

/// What the directory service can send on the heartbeat connection.
#[derive(Debug)]
pub enum MasterServerCommand {
    /// Liveness probe from the directory service.
    Check,
    /// Reply to this client's own ping.
    Pong,
    /// The directory service requests fresh registration info.
    NOSERV,
    /// Anything unrecognized: logged by the host and ignored here.
    Other(String),
}

/// Mathematical image of [`MasterServerCommand`].
pub enum MasterServerCommandV {
    Check,
    Pong,
    NOSERV,
    Other(Seq<char>),
}

impl View for MasterServerCommand {
    type V = MasterServerCommandV;

    open spec fn view(&self) -> MasterServerCommandV {
        match self {
            MasterServerCommand::Check => MasterServerCommandV::Check,
            MasterServerCommand::Pong => MasterServerCommandV::Pong,
            MasterServerCommand::NOSERV => MasterServerCommandV::NOSERV,
            MasterServerCommand::Other(s) => MasterServerCommandV::Other(s@),
        }
    }
}

/// The two states of the heartbeat client.
#[derive(Debug, Clone, Copy, PartialEq, Eq, Structural)]
pub enum MasterServerClientState {
    WaitCommand,
    WaitPong,
}

/// The port field of the registration string: the port this server itself
/// listens on, joined by `&` with its websocket port when websockets are
/// enabled. The directory service's own address is only what the heartbeat
/// connects to; it never appears in the announcement.
pub open spec fn spec_port_field(cfg: &Config) -> Seq<char> {
    if cfg.general.use_websockets {
        spec_u32_string(cfg.general.port as int) + "&"@ + spec_u32_string(
            cfg.general.websocket_port as int,
        )
    } else {
        spec_u32_string(cfg.general.port as int)
    }
}

/// The packed registration announcement:
/// `SCC#<port>[&<ws port>]#<name>#<description>#<software>#%`.
pub open spec fn spec_server_info(cfg: &Config, software: Seq<char>) -> Seq<char> {
    "SCC#"@ + spec_port_field(cfg) + "#"@ + cfg.masterserver.name@ + "#"@
        + cfg.masterserver.description@ + "#"@ + software + "#%"@
}

/// One step of the heartbeat protocol: the successor state and the message
/// to send, if any. `Check` is answered with one ping and moves to waiting
/// for the pong; `Pong` while waiting returns to waiting for commands and is
/// an anomaly otherwise (state unchanged); `NOSERV` is answered with one
/// registration string in either state without changing it; anything else
/// is ignored.
pub open spec fn spec_heartbeat_step(
    st: MasterServerClientState,
    msg: MasterServerCommandV,
    info: Seq<char>,
) -> (MasterServerClientState, Option<Seq<char>>) {
    match msg {
        MasterServerCommandV::Check => (MasterServerClientState::WaitPong, Some("PING#%"@)),
        MasterServerCommandV::Pong => {
            if st is WaitPong {
                (MasterServerClientState::WaitCommand, None)
            } else {
                (st, None)
            }
        },
        MasterServerCommandV::NOSERV => (st, Some(info)),
        MasterServerCommandV::Other(_) => (st, None),
    }
}

/// The packed registration string for this server's public info.
pub fn pack_server_info(cfg: &Config, software: &str) -> (r: String)
    ensures
        r@ == spec_server_info(cfg, software@),
{
    let mut s = String::new();
    s.append("SCC#");
    let port = u32_to_string(cfg.general.port);
    s.append(port.as_str());
    if cfg.general.use_websockets {
        s.append("&");
        let wsport = u32_to_string(cfg.general.websocket_port);
        s.append(wsport.as_str());
    }
    s.append("#");
    s.append(cfg.masterserver.name.as_str());
    s.append("#");
    s.append(cfg.masterserver.description.as_str());
    s.append("#");
    s.append(software);
    s.append("#%");
    proof {
        assert(s@ =~= spec_server_info(cfg, software@));
    }
    s
}

/// Decides one received directory-service command, exactly as
/// [`spec_heartbeat_step`] says over this server's registration string.
pub fn heartbeat_step(
    state: MasterServerClientState,
    msg: &MasterServerCommand,
    cfg: &Config,
    software: &str,
) -> (r: (MasterServerClientState, Option<String>))
    ensures
        ({
            let s = spec_heartbeat_step(state, msg@, spec_server_info(cfg, software@));
            r.0 == s.0 && (match r.1 {
                Some(m) => s.1 == Some(m@),
                None => s.1 is None,
            })
        }),
{
    match msg {
        MasterServerCommand::Check => {
            (MasterServerClientState::WaitPong, Some(String::from_str("PING#%")))
        },
        MasterServerCommand::Pong => {
            match state {
                MasterServerClientState::WaitPong => (MasterServerClientState::WaitCommand, None),
                MasterServerClientState::WaitCommand => (state, None),
            }
        },
        MasterServerCommand::NOSERV => (state, Some(pack_server_info(cfg, software))),
        MasterServerCommand::Other(_) => (state, None),
    }
}

/// The liveness rules of the heartbeat protocol: a probe while waiting for
/// commands emits exactly one ping and moves to waiting for the pong; the
/// pong returns to waiting for commands; a registration request emits
/// exactly one registration string and never changes state.
pub proof fn lemma_heartbeat_protocol(st: MasterServerClientState, info: Seq<char>)
    ensures
        spec_heartbeat_step(MasterServerClientState::WaitCommand, MasterServerCommandV::Check, info)
            == (MasterServerClientState::WaitPong, Some("PING#%"@)),
        spec_heartbeat_step(MasterServerClientState::WaitPong, MasterServerCommandV::Pong, info) == (
        MasterServerClientState::WaitCommand,
        None::<Seq<char>>,
        ),
        spec_heartbeat_step(st, MasterServerCommandV::NOSERV, info) == (st, Some(info)),
{
}

} // verus!

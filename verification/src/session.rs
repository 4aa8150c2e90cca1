//! Session roles and their lifecycle.
//!
//! A process is at most one of: idle, a client (one outbound connection), or
//! a server (accepting connections). The role is decided once per connection
//! attempt and only returns to idle on disconnect or teardown; every per-tick
//! system is gated on cheap predicates over this state.

use vstd::prelude::*;

verus! {

/// Maximum outbound replication tick rate of the server, in ticks per
/// second, independent of the simulation's fixed-step rate.
pub const MAX_TICK_RATE: u16 = 30;

/// Application protocol identifier exchanged during the transport handshake.
/// Peers whose identifiers differ cannot connect.
pub const PROTOCOL_ID: u64 = 0;

/// Port used when the address string names none.
pub const DEFAULT_PORT: u16 = 13001;

/// Fixed cap on simultaneously connected clients of one server.
pub const MAX_CLIENTS: usize = 2;

/// Peer identifier reserved for the hosting authority itself.
pub const SERVER_PEER_ID: u64 = 0;

/// Identifies one network participant for the lifetime of a session. The
/// value `SERVER_PEER_ID` is reserved for the hosting authority; a client
/// derives a fresh identifier from the wall clock when it connects.
#[derive(Clone, Copy, Debug, PartialEq, Eq, Structural)]
pub struct ClientId(pub u64);

impl ClientId {
    /// The reserved identifier of the hosting authority.
    pub fn server() -> (r: ClientId)
        ensures
            r.0 == SERVER_PEER_ID,
    {
        ClientId(SERVER_PEER_ID)
    }

    /// A session-scoped client identifier derived from the wall-clock time
    /// in milliseconds at connection time. Uniqueness is only as good as the
    /// clock, which suits direct-connect play among trusted peers.
    pub fn from_unix_millis(now_millis: u64) -> (r: ClientId)
        ensures
            r.0 == now_millis,
    {
        ClientId(now_millis)
    }
}

/// Marker for an active client role: this process holds one outbound
/// connection and the identifier it chose for itself.
#[derive(Clone, Copy, Debug, PartialEq, Eq, Structural)]
pub struct Client {
    pub id: ClientId,
}

/// Marker for an active server role.
#[derive(Clone, Copy, Debug, PartialEq, Eq, Structural)]
pub struct Server;

/// Whether this process currently acts as a server.
pub fn has_server(server: &Option<Server>) -> (r: bool)
    ensures
        r == server.is_some(),
{
    server.is_some()
}

/// Whether this process currently acts as a client.
pub fn has_client(client: &Option<Client>) -> (r: bool)
    ensures
        r == client.is_some(),
{
    client.is_some()
}

/// The connection lifecycle of one process. There is no automatic
/// reconnection: a failed or dropped connection returns to `Idle` and a
/// fresh user action starts over.
#[derive(Clone, Copy, Debug, PartialEq, Eq, Structural)]
pub enum SessionState {
    /// Menu or idle: no connection and none being attempted.
    Idle,
    /// A connect or host action is in flight (socket bound, transport being
    /// built); no role is installed yet.
    Connecting,
    /// This process accepted the server role.
    ConnectedAsServer,
    /// This process holds an outbound connection with the given identity.
    ConnectedAsClient(ClientId),
}

impl SessionState {
    /// Starts a connection attempt from idle.
    pub fn begin_attempt(&mut self)
        requires
            *old(self) == SessionState::Idle,
        ensures
            *final(self) == SessionState::Connecting,
    {
        *self = SessionState::Connecting;
    }

    /// Installs the server role once the listening transport stands.
    pub fn attempt_succeeded_as_server(&mut self)
        requires
            *old(self) == SessionState::Connecting,
        ensures
            *final(self) == SessionState::ConnectedAsServer,
    {
        *self = SessionState::ConnectedAsServer;
    }

    /// Installs the client role once the outbound transport stands.
    pub fn attempt_succeeded_as_client(&mut self, id: ClientId)
        requires
            *old(self) == SessionState::Connecting,
        ensures
            *final(self) == SessionState::ConnectedAsClient(id),
    {
        *self = SessionState::ConnectedAsClient(id);
    }

    /// Returns to idle: a failed attempt, a disconnect, or teardown. Legal
    /// from every state; from the very next tick no gated system runs.
    pub fn drop_connection(&mut self)
        ensures
            *final(self) == SessionState::Idle,
    {
        *self = SessionState::Idle;
    }

    /// Whether a role is installed (gates all replication systems).
    pub fn is_connected(&self) -> (r: bool)
        ensures
            r == (*self == SessionState::ConnectedAsServer || (*self)
                is ConnectedAsClient),
    {
        match *self {
            SessionState::ConnectedAsServer => true,
            SessionState::ConnectedAsClient(_) => true,
            _ => false,
        }
    }
}

/// Whether the transport handshake accepts a pairing of protocol
/// identifiers: both sides must carry the same constant.
pub fn protocol_matches(client_protocol: u64, server_protocol: u64) -> (r: bool)
    ensures
        r == (client_protocol == server_protocol),
{
    client_protocol == server_protocol
}

} // verus!

//! The compute halves of the connect and host operations.
//!
//! Binding the socket and constructing the transport are I/O and live with
//! the caller; what this module owns is everything decided from plain
//! values once the transport stands: the identity this process assumes, the
//! role marker it installs, and the arena it starts from.

use vstd::prelude::*;

use crate::registry::{spec_new_entity, World};
use crate::session::{Client, ClientId, Server, SERVER_PEER_ID};

verus! {

/// Establishes the server role once the listening transport stands: the
/// server marker, and an arena holding exactly the authority's own
/// bootstrap entity, owned by the reserved server identifier and tagged
/// `Local` — the hosting peer is itself a session participant.
pub fn start_server_session() -> (r: (Server, World))
    ensures
        r.1.wf(),
        r.1.self_id == ClientId(SERVER_PEER_ID),
        r.1.entities@ == Seq::empty().push(
            spec_new_entity(ClientId(SERVER_PEER_ID), ClientId(SERVER_PEER_ID)),
        ),
        r.1.spec_has_local_player(),
{
    let self_id = ClientId::server();
    let mut world = World::new(self_id);
    world.spawn_player(self_id);
    proof {
        assert(world.entities@[0].kind is Local);
    }
    (Server, world)
}

/// Establishes the client role once the outbound transport stands: the
/// client marker carrying the identity derived from the wall clock at
/// connection time, and an empty arena — the client's entities arrive
/// through replication and are classified as they are observed.
pub fn start_client_session(now_unix_millis: u64) -> (r: (Client, World))
    ensures
        r.0.id == ClientId(now_unix_millis),
        r.1.wf(),
        r.1.self_id == ClientId(now_unix_millis),
        r.1.entities@.len() == 0,
{
    let id = ClientId::from_unix_millis(now_unix_millis);
    (Client { id }, World::new(id))
}

} // verus!

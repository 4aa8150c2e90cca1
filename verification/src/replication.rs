//! The dedicated transform-replication path.
//!
//! Transforms change every tick, so they bypass the generic snapshot
//! mechanism: every tick each side pushes the transforms it is authoritative
//! for and drains the newest inbound records into the staging slots of the
//! matching `Remote` entities. Within a tick, the last received record for a
//! peer wins; stale or duplicate records are simply overwritten. An inbound
//! record whose peer owns no `Remote` entity here — it may be late after a
//! disconnect, or early before the spawn is locally visible — is dropped
//! without tearing anything down.

use vstd::prelude::*;
use vstd::bytes::{
    lemma_auto_spec_u64_to_from_le_bytes, spec_u64_from_le_bytes, spec_u64_to_le_bytes,
    u64_from_le_bytes, u64_to_le_bytes,
};

use crate::codec::{
    deserialize_transform, lemma_serialize_then_deserialize, serialize_transform,
    spec_deserialize_transform, spec_serialize_transform, SyncedTransform, TRANSFORM_WIRE_BYTES,
};
use crate::errors::DecodeError;
use crate::registry::{
    init_players, spec_apply_server_events, spec_init_players, Player, PlayerKind,
    ReplicatedEntity, ServerEvent, World,
};
use crate::session::ClientId;

verus! {

/// Number of bytes of one encoded server broadcast record: the owning
/// peer's 64-bit identifier, then the transform record.
pub const SERVER_EVENT_WIRE_BYTES: usize = 48;

/// One broadcast transform record: which peer's entity, and its
/// authoritative transform.
#[derive(Clone, Copy, Debug, PartialEq, Eq, Structural)]
pub struct TransformServerEvent {
    pub client_id: ClientId,
    pub transform: SyncedTransform,
}

/// One transform record sent by a client for its own entity.
#[derive(Clone, Copy, Debug, PartialEq, Eq, Structural)]
pub struct TransformClientEvent {
    pub transform: SyncedTransform,
}

/// Wire form of a server broadcast record: the peer identifier as eight
/// little-endian bytes, then the forty bytes of the transform record.
pub open spec fn spec_encode_server_event(e: TransformServerEvent) -> Seq<u8> {
    spec_u64_to_le_bytes(e.client_id.0) + spec_serialize_transform(e.transform)
}

/// The server broadcast record read back from the first forty-eight bytes
/// of a buffer.
pub open spec fn spec_decode_server_event(bytes: Seq<u8>) -> TransformServerEvent
    recommends
        bytes.len() >= SERVER_EVENT_WIRE_BYTES,
{
    TransformServerEvent {
        client_id: ClientId(spec_u64_from_le_bytes(bytes.subrange(0, 8))),
        transform: spec_deserialize_transform(bytes.subrange(8, 48)),
    }
}

/// Encodes a server broadcast record into its fixed 48-byte wire form.
pub fn encode_server_event(e: &TransformServerEvent) -> (r: Vec<u8>)
    ensures
        r@ == spec_encode_server_event(*e),
        r@.len() == SERVER_EVENT_WIRE_BYTES,
{
    let mut out = u64_to_le_bytes(e.client_id.0);
    let mut body = serialize_transform(&e.transform);
    proof {
        lemma_auto_spec_u64_to_from_le_bytes();
    }
    out.append(&mut body);
    out
}

/// Decodes a server broadcast record from the first forty-eight bytes of a
/// buffer. An undersized buffer fails the decode of that single message.
pub fn decode_server_event(bytes: &[u8]) -> (r: Result<TransformServerEvent, DecodeError>)
    ensures
        bytes@.len() >= SERVER_EVENT_WIRE_BYTES ==> r == Ok::<TransformServerEvent, DecodeError>(
            spec_decode_server_event(bytes@),
        ),
        bytes@.len() < SERVER_EVENT_WIRE_BYTES ==> r == Err::<TransformServerEvent, DecodeError>(
            DecodeError::UnexpectedEnd,
        ),
{
    if bytes.len() < SERVER_EVENT_WIRE_BYTES {
        return Err(DecodeError::UnexpectedEnd);
    }
    proof {
        lemma_auto_spec_u64_to_from_le_bytes();
    }
    let id = u64_from_le_bytes(&bytes[0..8]);
    match deserialize_transform(&bytes[8..48]) {
        Result::Err(e) => Err(e),
        Result::Ok(transform) => Ok(TransformServerEvent { client_id: ClientId(id), transform }),
    }
}

/// Round trip of the server broadcast record: decoding an encoded record
/// gives the record back.
pub proof fn lemma_server_event_round_trip(e: TransformServerEvent)
    ensures
        spec_encode_server_event(e).len() == SERVER_EVENT_WIRE_BYTES,
        spec_decode_server_event(spec_encode_server_event(e)) == e,
{
    lemma_auto_spec_u64_to_from_le_bytes();
    lemma_serialize_then_deserialize(e.transform);
    let bytes = spec_encode_server_event(e);
    assert(bytes.subrange(0, 8) =~= spec_u64_to_le_bytes(e.client_id.0));
    assert(bytes.subrange(8, 48) =~= spec_serialize_transform(e.transform));
}

/// Wire form of a client's own transform record: just the transform.
pub open spec fn spec_encode_client_event(e: TransformClientEvent) -> Seq<u8> {
    spec_serialize_transform(e.transform)
}

/// Encodes a client transform record into its fixed 40-byte wire form.
pub fn encode_client_event(e: &TransformClientEvent) -> (r: Vec<u8>)
    ensures
        r@ == spec_encode_client_event(*e),
        r@.len() == TRANSFORM_WIRE_BYTES,
{
    serialize_transform(&e.transform)
}

/// Decodes a client transform record from the first forty bytes of a
/// buffer. An undersized buffer fails the decode of that single message.
pub fn decode_client_event(bytes: &[u8]) -> (r: Result<TransformClientEvent, DecodeError>)
    ensures
        bytes@.len() >= TRANSFORM_WIRE_BYTES ==> r == Ok::<TransformClientEvent, DecodeError>(
            TransformClientEvent { transform: spec_deserialize_transform(bytes@) },
        ),
        bytes@.len() < TRANSFORM_WIRE_BYTES ==> r == Err::<TransformClientEvent, DecodeError>(
            DecodeError::UnexpectedEnd,
        ),
{
    match deserialize_transform(bytes) {
        Result::Err(e) => Err(e),
        Result::Ok(transform) => Ok(TransformClientEvent { transform }),
    }
}

/// The arena after one inbound record `(from, t)`: the staging slot of the
/// `Remote` entity owned by `from` is overwritten; everything else — other
/// entities, `Local` entities, unknown peers — is untouched.
pub open spec fn spec_apply_inbound(
    s: Seq<ReplicatedEntity>,
    from: ClientId,
    t: SyncedTransform,
) -> Seq<ReplicatedEntity> {
    Seq::new(
        s.len(),
        |i: int|
            if s[i].player.client_id == from && (s[i].kind is Remote) {
                ReplicatedEntity {
                    player: s[i].player,
                    kind: s[i].kind,
                    rendered: s[i].rendered,
                    staging: Option::Some(t),
                }
            } else {
                s[i]
            },
    )
}

/// The arena after a list of inbound records, applied first to last: its
/// first `k` elements have been applied.
pub open spec fn spec_apply_updates(
    s: Seq<ReplicatedEntity>,
    updates: Seq<(ClientId, SyncedTransform)>,
    k: int,
) -> Seq<ReplicatedEntity>
    decreases k,
{
    if k <= 0 {
        s
    } else {
        let prev = spec_apply_updates(s, updates, k - 1);
        spec_apply_inbound(prev, updates[k - 1].0, updates[k - 1].1)
    }
}

/// The newest record among the first `k` updates that is addressed to peer
/// `p`, if any.
pub open spec fn spec_last_update_for(
    updates: Seq<(ClientId, SyncedTransform)>,
    p: ClientId,
    k: int,
) -> Option<SyncedTransform>
    decreases k,
{
    if k <= 0 {
        Option::None
    } else if updates[k - 1].0 == p {
        Option::Some(updates[k - 1].1)
    } else {
        spec_last_update_for(updates, p, k - 1)
    }
}

/// Last received wins: after a tick's updates are merged in order, a
/// `Remote` entity's staging slot holds the newest record addressed to its
/// owner — earlier, stale or duplicate records are simply overwritten —
/// and nothing else about the entity changed; with no record addressed to
/// it, its staging slot is untouched.
pub proof fn lemma_last_write_wins(
    s: Seq<ReplicatedEntity>,
    updates: Seq<(ClientId, SyncedTransform)>,
    k: int,
    i: int,
)
    requires
        0 <= k <= updates.len(),
        0 <= i < s.len(),
        s[i].kind is Remote,
    ensures
        spec_apply_updates(s, updates, k).len() == s.len(),
        spec_apply_updates(s, updates, k)[i].player == s[i].player,
        spec_apply_updates(s, updates, k)[i].kind == s[i].kind,
        spec_apply_updates(s, updates, k)[i].rendered == s[i].rendered,
        spec_apply_updates(s, updates, k)[i].staging == match spec_last_update_for(
            updates,
            s[i].player.client_id,
            k,
        ) {
            Option::Some(t) => Option::Some(t),
            Option::None => s[i].staging,
        },
    decreases k,
{
    if k > 0 {
        lemma_last_write_wins(s, updates, k - 1, i);
    }
}

impl World {
    /// Merges one inbound transform record into the arena. Returns whether
    /// it was applied; a record for a peer that owns no `Remote` entity
    /// here is dropped, which is not an error.
    pub fn apply_inbound(&mut self, from: ClientId, t: SyncedTransform) -> (applied: bool)
        requires
            old(self).wf(),
        ensures
            final(self).wf(),
            final(self).self_id == old(self).self_id,
            final(self).entities@ == spec_apply_inbound(old(self).entities@, from, t),
            applied == exists|i: int|
                0 <= i < old(self).entities@.len() && (#[trigger] old(self).entities@[i]).player.client_id
                    == from && old(self).entities@[i].kind is Remote,
    {
        let ghost s0 = self.entities@;
        let applied = match self.find_owner(from) {
            Option::None => false,
            Option::Some(i) => {
                let entity = self.entities[i];
                match entity.kind {
                    PlayerKind::Local => false,
                    PlayerKind::Remote => {
                        self.entities[i] = ReplicatedEntity {
                            player: entity.player,
                            kind: entity.kind,
                            rendered: entity.rendered,
                            staging: Some(t),
                        };
                        true
                    },
                }
            },
        };
        proof {
            assert(self.entities@ =~= spec_apply_inbound(s0, from, t));
        }
        applied
    }

    /// Overwrites the rendered transform of the `Local` entity, if one
    /// exists: the ground truth that input and physics drive between ticks.
    /// Returns whether a `Local` entity was found.
    pub fn set_local_transform(&mut self, t: SyncedTransform) -> (found: bool)
        requires
            old(self).wf(),
        ensures
            final(self).wf(),
            final(self).self_id == old(self).self_id,
            final(self).entities@ == Seq::new(
                old(self).entities@.len(),
                |i: int|
                    if old(self).entities@[i].kind is Local {
                        ReplicatedEntity {
                            player: old(self).entities@[i].player,
                            kind: old(self).entities@[i].kind,
                            rendered: t,
                            staging: old(self).entities@[i].staging,
                        }
                    } else {
                        old(self).entities@[i]
                    },
            ),
            found == old(self).spec_has_local_player(),
    {
        let ghost s0 = self.entities@;
        let n = self.entities.len();
        let mut found = false;
        let mut i: usize = 0;
        while i < n
            invariant
                old(self).wf(),
                n == s0.len(),
                0 <= i <= n,
                self.self_id == old(self).self_id,
                self.entities@.len() == s0.len(),
                forall|k: int| i <= k < n ==> self.entities@[k] == s0[k],
                forall|k: int|
                    0 <= k < i ==> self.entities@[k] == (if s0[k].kind is Local {
                        ReplicatedEntity {
                            player: s0[k].player,
                            kind: s0[k].kind,
                            rendered: t,
                            staging: s0[k].staging,
                        }
                    } else {
                        s0[k]
                    }),
                found == exists|k: int| 0 <= k < i && (#[trigger] s0[k]).kind is Local,
            decreases n - i,
        {
            let entity = self.entities[i];
            match entity.kind {
                PlayerKind::Local => {
                    self.entities[i] = ReplicatedEntity {
                        player: entity.player,
                        kind: entity.kind,
                        rendered: t,
                        staging: entity.staging,
                    };
                    found = true;
                },
                PlayerKind::Remote => {},
            }
            i = i + 1;
        }
        proof {
            assert(self.entities@ =~= Seq::new(
                s0.len(),
                |k: int|
                    if s0[k].kind is Local {
                        ReplicatedEntity {
                            player: s0[k].player,
                            kind: s0[k].kind,
                            rendered: t,
                            staging: s0[k].staging,
                        }
                    } else {
                        s0[k]
                    },
            ));
        }
        found
    }
}

/// Server side: drains the transform records clients sent this tick, each
/// tagged with its sender, and merges them into the staging slots of the
/// senders' entities, first to last. A record from a peer without a
/// `Remote` entity — late after its disconnect, or racing its spawn — is
/// dropped and the rest still apply.
pub fn transform_server_handler(world: &mut World, events: &Vec<(ClientId, TransformClientEvent)>)
    requires
        old(world).wf(),
    ensures
        final(world).wf(),
        final(world).self_id == old(world).self_id,
        final(world).entities@ == spec_apply_updates(
            old(world).entities@,
            events@.map_values(|e: (ClientId, TransformClientEvent)| (e.0, e.1.transform)),
            events@.len() as int,
        ),
{
    let ghost updates = events@.map_values(
        |e: (ClientId, TransformClientEvent)| (e.0, e.1.transform),
    );
    let n = events.len();
    let mut k: usize = 0;
    while k < n
        invariant
            n == events@.len(),
            0 <= k <= n,
            updates == events@.map_values(
                |e: (ClientId, TransformClientEvent)| (e.0, e.1.transform),
            ),
            world.wf(),
            world.self_id == old(world).self_id,
            world.entities@ == spec_apply_updates(old(world).entities@, updates, k as int),
        decreases n - k,
    {
        let (from, event) = events[k];
        world.apply_inbound(from, event.transform);
        k = k + 1;
    }
}

/// Client side: drains the transform records the server broadcast this
/// tick and merges each into the staging slot of the matching `Remote`
/// entity, first to last. A record for the client's own `Local` entity is
/// ignored — the client, not the server relay, is authoritative for it here
/// — as is a record for an unknown peer.
pub fn transform_client_handler(world: &mut World, events: &Vec<TransformServerEvent>)
    requires
        old(world).wf(),
    ensures
        final(world).wf(),
        final(world).self_id == old(world).self_id,
        final(world).entities@ == spec_apply_updates(
            old(world).entities@,
            events@.map_values(|e: TransformServerEvent| (e.client_id, e.transform)),
            events@.len() as int,
        ),
{
    let ghost updates = events@.map_values(|e: TransformServerEvent| (e.client_id, e.transform));
    let n = events.len();
    let mut k: usize = 0;
    while k < n
        invariant
            n == events@.len(),
            0 <= k <= n,
            updates == events@.map_values(|e: TransformServerEvent| (e.client_id, e.transform)),
            world.wf(),
            world.self_id == old(world).self_id,
            world.entities@ == spec_apply_updates(old(world).entities@, updates, k as int),
        decreases n - k,
    {
        let event = events[k];
        world.apply_inbound(event.client_id, event.transform);
        k = k + 1;
    }
}

/// Server side: the broadcast of this tick — one record per entity, in
/// arena order, carrying the entity's current rendered transform as the
/// authoritative value.
pub fn transform_server_sender(world: &World) -> (r: Vec<TransformServerEvent>)
    ensures
        r@.len() == world.entities@.len(),
        forall|i: int|
            0 <= i < r@.len() ==> #[trigger] r@[i] == (TransformServerEvent {
                client_id: world.entities@[i].player.client_id,
                transform: world.entities@[i].rendered,
            }),
{
    let n = world.entities.len();
    let mut out: Vec<TransformServerEvent> = Vec::new();
    let mut i: usize = 0;
    while i < n
        invariant
            n == world.entities@.len(),
            0 <= i <= n,
            out@.len() == i,
            forall|k: int|
                0 <= k < i ==> #[trigger] out@[k] == (TransformServerEvent {
                    client_id: world.entities@[k].player.client_id,
                    transform: world.entities@[k].rendered,
                }),
        decreases n - i,
    {
        let entity = world.entities[i];
        out.push(TransformServerEvent {
            client_id: entity.player.client_id,
            transform: entity.rendered,
        });
        i = i + 1;
    }
    out
}

/// One full authoritative tick over plain values, phases in their fixed
/// order: first the peer lifecycle events are drained (spawns and
/// despawns), then the inbound transform records are merged, and only then
/// is this tick's broadcast taken — receive strictly precedes apply, apply
/// strictly precedes send.
pub fn server_tick(
    world: &mut World,
    events: &Vec<ServerEvent>,
    inbound: &Vec<(ClientId, TransformClientEvent)>,
) -> (broadcast: Vec<TransformServerEvent>)
    requires
        old(world).wf(),
    ensures
        final(world).wf(),
        final(world).self_id == old(world).self_id,
        final(world).entities@ == spec_apply_updates(
            spec_apply_server_events(
                old(world).entities@,
                old(world).self_id,
                events@,
                events@.len() as int,
            ),
            inbound@.map_values(|e: (ClientId, TransformClientEvent)| (e.0, e.1.transform)),
            inbound@.len() as int,
        ),
        broadcast@.len() == final(world).entities@.len(),
        forall|i: int|
            0 <= i < broadcast@.len() ==> #[trigger] broadcast@[i] == (TransformServerEvent {
                client_id: final(world).entities@[i].player.client_id,
                transform: final(world).entities@[i].rendered,
            }),
{
    world.process_server_events(events);
    transform_server_handler(world, inbound);
    transform_server_sender(world)
}

/// One full client tick over plain values, phases in their fixed order:
/// first the players newly observed through replication are classified,
/// then the broadcast records are merged into the staging slots, and only
/// then is the local entity's own record taken for sending.
pub fn client_tick(
    world: &mut World,
    observed: &Vec<Player>,
    events: &Vec<TransformServerEvent>,
) -> (outbound: Option<TransformClientEvent>)
    requires
        old(world).wf(),
    ensures
        final(world).wf(),
        final(world).self_id == old(world).self_id,
        final(world).entities@ == spec_apply_updates(
            spec_init_players(
                old(world).entities@,
                old(world).self_id,
                observed@,
                observed@.len() as int,
            ),
            events@.map_values(|e: TransformServerEvent| (e.client_id, e.transform)),
            events@.len() as int,
        ),
        outbound.is_some() == final(world).spec_has_local_player(),
        match outbound {
            Option::Some(e) => exists|i: int|
                0 <= i < final(world).entities@.len()
                    && (#[trigger] final(world).entities@[i]).kind is Local
                    && final(world).entities@[i].rendered == e.transform,
            Option::None => !final(world).spec_has_local_player(),
        },
{
    init_players(world, observed);
    transform_client_handler(world, events);
    transform_client_sender(world)
}

/// Client side: the record this client sends for its own entity — the
/// current rendered transform of the `Local` entity, or nothing when no
/// local player exists yet.
pub fn transform_client_sender(world: &World) -> (r: Option<TransformClientEvent>)
    requires
        world.wf(),
    ensures
        r.is_some() == world.spec_has_local_player(),
        match r {
            Option::Some(e) => exists|i: int|
                0 <= i < world.entities@.len() && (#[trigger] world.entities@[i]).kind is Local
                    && world.entities@[i].rendered == e.transform,
            Option::None => !world.spec_has_local_player(),
        },
{
    let n = world.entities.len();
    let mut i: usize = 0;
    while i < n
        invariant
            n == world.entities@.len(),
            0 <= i <= n,
            forall|k: int| 0 <= k < i ==> !((#[trigger] world.entities@[k]).kind is Local),
        decreases n - i,
    {
        let entity = world.entities[i];
        match entity.kind {
            PlayerKind::Local => {
                return Some(TransformClientEvent { transform: entity.rendered });
            },
            PlayerKind::Remote => {},
        }
        i = i + 1;
    }
    None
}

} // verus!

//! Replicated entities, their ownership classification, and the connection
//! lifecycle that creates and removes them.
//!
//! Entities live in an explicit arena. Each is owned by exactly one peer and
//! carries exactly one ownership tag, decided once when the entity
//! materializes: `Local` when the owning peer identifier equals this
//! process's own, `Remote` otherwise. A `Remote` entity additionally holds a
//! staging slot for the last transform received over the wire; a `Local`
//! entity is driven directly and has none.

use vstd::prelude::*;

use crate::codec::{QuatBits, SyncedTransform, Vec3Bits};
use crate::session::{Client, ClientId};

verus! {

/// Bit pattern of the 32-bit float zero.
pub const FLOAT_BITS_ZERO: u32 = 0x0000_0000;

/// Bit pattern of the 32-bit float one.
pub const FLOAT_BITS_ONE: u32 = 0x3F80_0000;

/// Bit pattern of the 32-bit float three.
pub const FLOAT_BITS_THREE: u32 = 0x4040_0000;

/// The ownership tag of a replicated entity, assigned once at
/// materialization and never reassigned.
#[derive(Clone, Copy, Debug, PartialEq, Eq, Structural)]
pub enum PlayerKind {
    /// This process is authoritative for the entity's transform.
    Local,
    /// The authoritative value arrives over the wire; this process only
    /// renders and interpolates.
    Remote,
}

/// The replicated player component: which peer owns the entity.
#[derive(Clone, Copy, Debug, PartialEq, Eq, Structural)]
pub struct Player {
    pub client_id: ClientId,
}

/// One entry of the entity arena.
#[derive(Clone, Copy, Debug, PartialEq, Eq, Structural)]
pub struct ReplicatedEntity {
    pub player: Player,
    pub kind: PlayerKind,
    /// The transform actually used for rendering and physics. For a `Local`
    /// entity it is ground truth; for a `Remote` entity it chases the
    /// staging value. Always live: an entity materializes with it seeded
    /// from the spawn transform, so an inbound record never finds it
    /// missing and is immediately placeable.
    pub rendered: SyncedTransform,
    /// Last transform received over the wire, awaiting smoothing. Present
    /// exactly on `Remote` entities.
    pub staging: Option<SyncedTransform>,
}

/// The fixed transform every player entity is seeded with: position
/// (0, 3, 0), identity rotation, unit scale.
pub open spec fn spec_spawn_transform() -> SyncedTransform {
    SyncedTransform {
        translation: Vec3Bits { x: FLOAT_BITS_ZERO, y: FLOAT_BITS_THREE, z: FLOAT_BITS_ZERO },
        rotation: QuatBits {
            x: FLOAT_BITS_ZERO,
            y: FLOAT_BITS_ZERO,
            z: FLOAT_BITS_ZERO,
            w: FLOAT_BITS_ONE,
        },
        scale: Vec3Bits { x: FLOAT_BITS_ONE, y: FLOAT_BITS_ONE, z: FLOAT_BITS_ONE },
    }
}

/// The fixed spawn transform as a value.
pub fn spawn_transform() -> (r: SyncedTransform)
    ensures
        r == spec_spawn_transform(),
{
    SyncedTransform {
        translation: Vec3Bits { x: FLOAT_BITS_ZERO, y: FLOAT_BITS_THREE, z: FLOAT_BITS_ZERO },
        rotation: QuatBits {
            x: FLOAT_BITS_ZERO,
            y: FLOAT_BITS_ZERO,
            z: FLOAT_BITS_ZERO,
            w: FLOAT_BITS_ONE,
        },
        scale: Vec3Bits { x: FLOAT_BITS_ONE, y: FLOAT_BITS_ONE, z: FLOAT_BITS_ONE },
    }
}

/// The entity a peer materializes as, classified against `self_id`.
pub open spec fn spec_new_entity(self_id: ClientId, client_id: ClientId) -> ReplicatedEntity {
    ReplicatedEntity {
        player: Player { client_id },
        kind: if client_id == self_id {
            PlayerKind::Local
        } else {
            PlayerKind::Remote
        },
        rendered: spec_spawn_transform(),
        staging: if client_id == self_id {
            Option::None
        } else {
            Option::Some(spec_spawn_transform())
        },
    }
}

/// No two entities are owned by the same peer.
pub open spec fn owners_distinct(s: Seq<ReplicatedEntity>) -> bool {
    forall|i: int, j: int|
        0 <= i < j < s.len() ==> s[i].player.client_id != s[j].player.client_id
}

/// An entity is `Local` exactly when this process owns it.
pub open spec fn kinds_consistent(s: Seq<ReplicatedEntity>, self_id: ClientId) -> bool {
    forall|i: int|
        0 <= i < s.len() ==> ((#[trigger] s[i].kind is Local) <==> s[i].player.client_id
            == self_id)
}

/// Exactly the `Remote` entities hold a staging slot.
pub open spec fn staging_consistent(s: Seq<ReplicatedEntity>) -> bool {
    forall|i: int| 0 <= i < s.len() ==> ((#[trigger] s[i].kind is Remote) <==> s[i].staging is Some)
}

/// The entity arena of one process, together with the identity the process
/// classifies ownership against: the reserved server identifier on the
/// authority, the connection-scoped identifier on a client.
pub struct World {
    pub self_id: ClientId,
    pub entities: Vec<ReplicatedEntity>,
}

/// The arena after removing every entity owned by `id`, order kept.
pub open spec fn spec_despawn(s: Seq<ReplicatedEntity>, id: ClientId) -> Seq<ReplicatedEntity>
    decreases s.len(),
{
    if s.len() == 0 {
        s
    } else {
        let rest = spec_despawn(s.drop_last(), id);
        if s.last().player.client_id == id {
            rest
        } else {
            rest.push(s.last())
        }
    }
}

/// What despawning guarantees: nothing owned by `id` is left, everything
/// kept was already there, and all three well-formedness clauses survive.
pub proof fn lemma_despawn_props(s: Seq<ReplicatedEntity>, self_id: ClientId, id: ClientId)
    ensures
        spec_despawn(s, id).len() <= s.len(),
        forall|k: int|
            0 <= k < spec_despawn(s, id).len() ==> (#[trigger] spec_despawn(s, id)[k]).player.client_id
                != id,
        forall|k: int|
            0 <= k < spec_despawn(s, id).len() ==> exists|j: int|
                0 <= j < s.len() && #[trigger] spec_despawn(s, id)[k] == s[j],
        owners_distinct(s) ==> owners_distinct(spec_despawn(s, id)),
        kinds_consistent(s, self_id) ==> kinds_consistent(spec_despawn(s, id), self_id),
        staging_consistent(s) ==> staging_consistent(spec_despawn(s, id)),
    decreases s.len(),
{
    if s.len() > 0 {
        let rest = spec_despawn(s.drop_last(), id);
        let out = spec_despawn(s, id);
        lemma_despawn_props(s.drop_last(), self_id, id);
        assert forall|k: int|
            0 <= k < out.len() implies exists|j: int| 0 <= j < s.len() && #[trigger] out[k]
            == s[j] by {
            if k < rest.len() {
                let j = choose|j: int| 0 <= j < s.drop_last().len() && rest[k] == s.drop_last()[j];
                assert(out[k] == s[j]);
            } else {
                assert(out[k] == s[s.len() - 1]);
            }
        }
        if owners_distinct(s) {
            assert forall|i: int, j: int|
                0 <= i < j < out.len() implies out[i].player.client_id
                != out[j].player.client_id by {
                if j < rest.len() {
                } else {
                    // `out[j]` is the pushed last element; everything kept in
                    // `rest` stems from `drop_last`, whose owners differ from
                    // the last element's owner.
                    let wj = choose|w: int|
                        0 <= w < s.drop_last().len() && rest[i] == s.drop_last()[w];
                    assert(out[i] == s[wj]);
                    assert(out[j] == s[s.len() - 1]);
                    assert(wj < s.len() - 1);
                }
            }
        }
    }
}

impl World {
    /// All structural invariants of the arena.
    pub open spec fn wf(self) -> bool {
        &&& owners_distinct(self.entities@)
        &&& kinds_consistent(self.entities@, self.self_id)
        &&& staging_consistent(self.entities@)
    }

    /// Whether some entity is owned by `id`.
    pub open spec fn spec_contains_owner(self, id: ClientId) -> bool {
        exists|i: int|
            0 <= i < self.entities@.len() && (#[trigger] self.entities@[i]).player.client_id == id
    }

    /// Whether some entity is tagged `Local`.
    pub open spec fn spec_has_local_player(self) -> bool {
        exists|i: int| 0 <= i < self.entities@.len() && (#[trigger] self.entities@[i]).kind is Local
    }

    /// An empty arena classifying against `self_id`.
    pub fn new(self_id: ClientId) -> (r: World)
        ensures
            r.wf(),
            r.self_id == self_id,
            r.entities@.len() == 0,
    {
        World { self_id, entities: Vec::new() }
    }

    /// Index of the entity owned by `id`, if any.
    pub(crate) fn find_owner(&self, id: ClientId) -> (r: Option<usize>)
        ensures
            match r {
                Option::Some(i) => i < self.entities@.len() && self.entities@[i as int].player.client_id
                    == id,
                Option::None => !self.spec_contains_owner(id),
            },
    {
        let n = self.entities.len();
        let mut i: usize = 0;
        while i < n
            invariant
                n == self.entities@.len(),
                0 <= i <= n,
                forall|k: int|
                    0 <= k < i ==> (#[trigger] self.entities@[k]).player.client_id != id,
            decreases n - i,
        {
            if self.entities[i].player.client_id == id {
                return Some(i);
            }
            i = i + 1;
        }
        None
    }

    /// Whether some entity is owned by `id`.
    pub fn contains_owner(&self, id: ClientId) -> (r: bool)
        ensures
            r == self.spec_contains_owner(id),
    {
        self.find_owner(id).is_some()
    }

    /// Whether this process holds a locally controlled entity. On a client
    /// this plays the part of the local-player marker installed at first
    /// `Local` classification; it is what gates input-driven systems.
    pub fn has_local_player(&self) -> (r: bool)
        ensures
            r == self.spec_has_local_player(),
    {
        let n = self.entities.len();
        let mut i: usize = 0;
        while i < n
            invariant
                n == self.entities@.len(),
                0 <= i <= n,
                forall|k: int| 0 <= k < i ==> !((#[trigger] self.entities@[k]).kind is Local),
            decreases n - i,
        {
            match self.entities[i].kind {
                PlayerKind::Local => {
                    return true;
                },
                PlayerKind::Remote => {},
            }
            i = i + 1;
        }
        false
    }

    /// Materializes the entity of peer `client_id`, classifying it against
    /// this process's own identity: the server's bootstrap entity and each
    /// connecting peer on the authority, or a newly observed replicated
    /// entity on a client. A `Remote` entity starts with its staging slot
    /// seeded from the spawn transform. A peer that already owns an entity
    /// is left untouched and `false` comes back: ownership is assigned once.
    pub fn spawn_player(&mut self, client_id: ClientId) -> (added: bool)
        requires
            old(self).wf(),
        ensures
            final(self).wf(),
            final(self).self_id == old(self).self_id,
            added == !old(self).spec_contains_owner(client_id),
            added ==> final(self).entities@ == old(self).entities@.push(
                spec_new_entity(old(self).self_id, client_id),
            ),
            !added ==> final(self).entities@ == old(self).entities@,
    {
        match self.find_owner(client_id) {
            Option::Some(_) => false,
            Option::None => {
                let transform = spawn_transform();
                let entity = if client_id == self.self_id {
                    ReplicatedEntity {
                        player: Player { client_id },
                        kind: PlayerKind::Local,
                        rendered: transform,
                        staging: None,
                    }
                } else {
                    ReplicatedEntity {
                        player: Player { client_id },
                        kind: PlayerKind::Remote,
                        rendered: transform,
                        staging: Some(transform),
                    }
                };
                self.entities.push(entity);
                true
            },
        }
    }

    /// Removes every entity owned by `client_id`, keeping the order of the
    /// rest. Terminal: a departed peer's entities never come back.
    pub fn despawn_owned_by(&mut self, client_id: ClientId)
        requires
            old(self).wf(),
        ensures
            final(self).wf(),
            final(self).self_id == old(self).self_id,
            final(self).entities@ == spec_despawn(old(self).entities@, client_id),
            !final(self).spec_contains_owner(client_id),
    {
        let n = self.entities.len();
        let mut kept: Vec<ReplicatedEntity> = Vec::new();
        let mut i: usize = 0;
        while i < n
            invariant
                n == self.entities@.len(),
                0 <= i <= n,
                kept@ == spec_despawn(self.entities@.subrange(0, i as int), client_id),
            decreases n - i,
        {
            let entity = self.entities[i];
            proof {
                assert(self.entities@.subrange(0, i + 1 as int).drop_last() =~= self.entities@
                    .subrange(0, i as int));
                assert(self.entities@.subrange(0, i + 1 as int).last() == self.entities@[i as int]);
            }
            if !(entity.player.client_id == client_id) {
                kept.push(entity);
            }
            i = i + 1;
        }
        proof {
            assert(self.entities@.subrange(0, n as int) =~= self.entities@);
            lemma_despawn_props(self.entities@, self.self_id, client_id);
        }
        self.entities = kept;
    }
}

/// A peer-connected or peer-disconnected notification from the transport,
/// drained once per tick on the authoritative side.
#[derive(Debug)]
pub enum ServerEvent {
    /// A new peer completed the handshake.
    ClientConnected { client_id: ClientId },
    /// A peer left or was lost. The reason is carried for logging only; no
    /// grace period or retry follows from it.
    ClientDisconnected { client_id: ClientId, reason: String },
}

/// The arena after one lifecycle event: a connect materializes the peer's
/// entity (ownership assigned once: a peer that already owns one is left
/// alone), a disconnect removes everything the peer owns, terminally.
pub open spec fn spec_apply_server_event(
    s: Seq<ReplicatedEntity>,
    self_id: ClientId,
    event: ServerEvent,
) -> Seq<ReplicatedEntity> {
    match event {
        ServerEvent::ClientConnected { client_id } => spec_spawn(s, self_id, client_id),
        ServerEvent::ClientDisconnected { client_id, reason } => spec_despawn(s, client_id),
    }
}

/// The arena after peer `client_id` materializes: unchanged when the peer
/// already owns an entity, else its classified entity appended.
pub open spec fn spec_spawn(
    s: Seq<ReplicatedEntity>,
    self_id: ClientId,
    client_id: ClientId,
) -> Seq<ReplicatedEntity> {
    if exists|i: int| 0 <= i < s.len() && (#[trigger] s[i]).player.client_id == client_id {
        s
    } else {
        s.push(spec_new_entity(self_id, client_id))
    }
}

/// The arena after the first `k` of a tick's newly observed players have
/// been classified and materialized, in order.
pub open spec fn spec_init_players(
    s: Seq<ReplicatedEntity>,
    self_id: ClientId,
    players: Seq<Player>,
    k: int,
) -> Seq<ReplicatedEntity>
    decreases k,
{
    if k <= 0 {
        s
    } else {
        spec_spawn(spec_init_players(s, self_id, players, k - 1), self_id, players[k - 1].client_id)
    }
}

/// Client side: classifies the players newly observed through replication
/// this tick. Each is compared against this process's own identifier: on a
/// match it becomes the `Local` entity (at most once, since a client owns
/// exactly one player and ownership is assigned once); otherwise it becomes
/// `Remote` with a freshly seeded staging slot.
pub fn init_players(world: &mut World, spawned_players: &Vec<Player>)
    requires
        old(world).wf(),
    ensures
        final(world).wf(),
        final(world).self_id == old(world).self_id,
        final(world).entities@ == spec_init_players(
            old(world).entities@,
            old(world).self_id,
            spawned_players@,
            spawned_players@.len() as int,
        ),
{
    let n = spawned_players.len();
    let mut k: usize = 0;
    while k < n
        invariant
            n == spawned_players@.len(),
            0 <= k <= n,
            world.wf(),
            world.self_id == old(world).self_id,
            world.entities@ == spec_init_players(
                old(world).entities@,
                old(world).self_id,
                spawned_players@,
                k as int,
            ),
        decreases n - k,
    {
        let player = spawned_players[k];
        world.spawn_player(player.client_id);
        k = k + 1;
    }
}

/// The arena after the first `k` of a tick's lifecycle events, in order.
pub open spec fn spec_apply_server_events(
    s: Seq<ReplicatedEntity>,
    self_id: ClientId,
    events: Seq<ServerEvent>,
    k: int,
) -> Seq<ReplicatedEntity>
    decreases k,
{
    if k <= 0 {
        s
    } else {
        spec_apply_server_event(
            spec_apply_server_events(s, self_id, events, k - 1),
            self_id,
            events[k - 1],
        )
    }
}

impl World {
    /// Authoritative side: drains this tick's peer lifecycle events, in
    /// order. Each connect spawns the peer's `Remote` entity (the authority
    /// does not control remote players); each disconnect removes every
    /// entity the peer owns.
    pub fn process_server_events(&mut self, events: &Vec<ServerEvent>)
        requires
            old(self).wf(),
        ensures
            final(self).wf(),
            final(self).self_id == old(self).self_id,
            final(self).entities@ == spec_apply_server_events(
                old(self).entities@,
                old(self).self_id,
                events@,
                events@.len() as int,
            ),
    {
        let n = events.len();
        let mut k: usize = 0;
        while k < n
            invariant
                n == events@.len(),
                0 <= k <= n,
                self.wf(),
                self.self_id == old(self).self_id,
                self.entities@ == spec_apply_server_events(
                    old(self).entities@,
                    old(self).self_id,
                    events@,
                    k as int,
                ),
            decreases n - k,
        {
            match &events[k] {
                ServerEvent::ClientConnected { client_id } => {
                    self.spawn_player(*client_id);
                },
                ServerEvent::ClientDisconnected { client_id, reason: _ } => {
                    self.despawn_owned_by(*client_id);
                },
            }
            k = k + 1;
        }
    }
}

/// Disconnect cleanup: after the lifecycle handler processes a
/// peer-disconnected event for `p`, zero entities owned by `p` remain.
pub proof fn lemma_disconnect_cleanup(
    s: Seq<ReplicatedEntity>,
    self_id: ClientId,
    event: ServerEvent,
)
    requires
        event is ClientDisconnected,
    ensures
        forall|k: int|
            0 <= k < spec_apply_server_event(s, self_id, event).len() ==> (
            #[trigger] spec_apply_server_event(s, self_id, event)[k]).player.client_id
                != event.arrow_ClientDisconnected_client_id(),
{
    lemma_despawn_props(s, self_id, event.arrow_ClientDisconnected_client_id());
}

/// Ownership exclusivity: in a well-formed arena at most one entity carries
/// the `Local` tag, whatever the session did so far.
pub proof fn lemma_local_exclusive(w: World)
    requires
        w.wf(),
    ensures
        forall|i: int, j: int|
            0 <= i < w.entities@.len() && 0 <= j < w.entities@.len()
                && (#[trigger] w.entities@[i]).kind is Local
                && (#[trigger] w.entities@[j]).kind is Local ==> i == j,
{
    assert forall|i: int, j: int|
        0 <= i < w.entities@.len() && 0 <= j < w.entities@.len()
            && (#[trigger] w.entities@[i]).kind is Local
            && (#[trigger] w.entities@[j]).kind is Local implies i == j by {
        assert(w.entities@[i].player.client_id == w.self_id);
        assert(w.entities@[j].player.client_id == w.self_id);
    }
}

/// Whether this process is an active client that also controls a local
/// entity (gates the client-side outbound transform path).
pub fn has_client_and_local_player(client: &Option<Client>, world: &World) -> (r: bool)
    ensures
        r == (client.is_some() && world.spec_has_local_player()),
{
    client.is_some() && world.has_local_player()
}

} // verus!

use netsync::codec::{QuatBits, SyncedTransform, Vec3Bits};
use netsync::connect::{start_client_session, start_server_session};
use netsync::registry::{init_players, Player, PlayerKind, ServerEvent, World};
use netsync::session::{has_client, has_server, Client, ClientId, Server, SERVER_PEER_ID};

fn transform_at(x: f32) -> SyncedTransform {
    SyncedTransform {
        translation: Vec3Bits {
            x: x.to_bits(),
            y: 0.0f32.to_bits(),
            z: 0.0f32.to_bits(),
        },
        rotation: QuatBits {
            x: 0.0f32.to_bits(),
            y: 0.0f32.to_bits(),
            z: 0.0f32.to_bits(),
            w: 1.0f32.to_bits(),
        },
        scale: Vec3Bits {
            x: 1.0f32.to_bits(),
            y: 1.0f32.to_bits(),
            z: 1.0f32.to_bits(),
        },
    }
}

fn count_owned(world: &World, id: u64) -> usize {
    world
        .entities
        .iter()
        .filter(|e| e.player.client_id == ClientId(id))
        .count()
}

fn count_local(world: &World) -> usize {
    world
        .entities
        .iter()
        .filter(|e| matches!(e.kind, PlayerKind::Local))
        .count()
}

#[test]
fn server_start_creates_one_local_entity_owned_by_the_server_id() {
    let (_server, world) = start_server_session();
    assert_eq!(world.entities.len(), 1);
    let bootstrap = &world.entities[0];
    assert_eq!(bootstrap.player.client_id, ClientId(SERVER_PEER_ID));
    assert!(matches!(bootstrap.kind, PlayerKind::Local));
    assert!(bootstrap.staging.is_none());
    assert!(world.has_local_player());
}

#[test]
fn client_connect_converges_both_sides_to_two_entities() {
    // Server side: one peer connects.
    let (_server, mut server_world) = start_server_session();
    let client_id: u64 = 1_700_000_000_123;
    server_world.process_server_events(&vec![ServerEvent::ClientConnected {
        client_id: ClientId(client_id),
    }]);
    assert_eq!(server_world.entities.len(), 2);
    let peer_entity = server_world
        .entities
        .iter()
        .find(|e| e.player.client_id == ClientId(client_id))
        .unwrap();
    assert!(matches!(peer_entity.kind, PlayerKind::Remote));
    assert!(peer_entity.staging.is_some());
    assert_eq!(count_local(&server_world), 1);

    // Client side: the replicated snapshot shows both players.
    let (client, mut client_world) = start_client_session(client_id);
    assert_eq!(client.id, ClientId(client_id));
    init_players(
        &mut client_world,
        &vec![
            Player {
                client_id: ClientId(SERVER_PEER_ID),
            },
            Player {
                client_id: ClientId(client_id),
            },
        ],
    );
    assert_eq!(client_world.entities.len(), 2);
    let own = client_world
        .entities
        .iter()
        .find(|e| e.player.client_id == ClientId(client_id))
        .unwrap();
    assert!(matches!(own.kind, PlayerKind::Local));
    assert!(own.staging.is_none());
    let server_entity = client_world
        .entities
        .iter()
        .find(|e| e.player.client_id == ClientId(SERVER_PEER_ID))
        .unwrap();
    assert!(matches!(server_entity.kind, PlayerKind::Remote));
    assert!(client_world.has_local_player());
    assert_eq!(count_local(&client_world), 1);
}

#[test]
fn at_most_one_local_entity_even_if_the_same_player_is_observed_twice() {
    let client_id: u64 = 42;
    let (_client, mut world) = start_client_session(client_id);
    init_players(
        &mut world,
        &vec![
            Player {
                client_id: ClientId(client_id),
            },
            Player {
                client_id: ClientId(client_id),
            },
        ],
    );
    assert_eq!(world.entities.len(), 1);
    assert_eq!(count_local(&world), 1);
}

#[test]
fn disconnect_removes_every_entity_of_the_departed_peer() {
    let (_server, mut world) = start_server_session();
    world.process_server_events(&vec![
        ServerEvent::ClientConnected {
            client_id: ClientId(7),
        },
        ServerEvent::ClientConnected {
            client_id: ClientId(8),
        },
    ]);
    assert_eq!(world.entities.len(), 3);

    world.process_server_events(&vec![ServerEvent::ClientDisconnected {
        client_id: ClientId(7),
        reason: String::from("transport closed"),
    }]);
    assert_eq!(world.entities.len(), 2);
    assert!(!world.contains_owner(ClientId(7)));
    assert!(world.contains_owner(ClientId(8)));
    assert_eq!(count_owned(&world, 7), 0);
    assert_eq!(count_owned(&world, 8), 1);
    assert_eq!(count_owned(&world, SERVER_PEER_ID), 1);
}

#[test]
fn late_packet_after_disconnect_is_dropped_without_error() {
    let (_server, mut world) = start_server_session();
    world.process_server_events(&vec![ServerEvent::ClientConnected {
        client_id: ClientId(7),
    }]);
    world.process_server_events(&vec![ServerEvent::ClientDisconnected {
        client_id: ClientId(7),
        reason: String::from("timed out"),
    }]);

    let before = world.entities.clone();
    let applied = world.apply_inbound(ClientId(7), transform_at(3.5));
    assert!(!applied);
    assert_eq!(world.entities, before);
}

#[test]
fn reconnect_after_disconnect_gets_a_fresh_entity() {
    let (_server, mut world) = start_server_session();
    world.process_server_events(&vec![
        ServerEvent::ClientConnected {
            client_id: ClientId(7),
        },
        ServerEvent::ClientDisconnected {
            client_id: ClientId(7),
            reason: String::from("gone"),
        },
        ServerEvent::ClientConnected {
            client_id: ClientId(9),
        },
    ]);
    assert_eq!(world.entities.len(), 2);
    assert_eq!(count_owned(&world, 7), 0);
    assert_eq!(count_owned(&world, 9), 1);
}

#[test]
fn session_predicates_reflect_installed_roles() {
    let none_server: Option<Server> = None;
    let none_client: Option<Client> = None;
    assert!(!has_server(&none_server));
    assert!(!has_client(&none_client));

    let (server, world) = start_server_session();
    assert!(has_server(&Some(server)));
    assert!(world.has_local_player());

    let (client, world) = start_client_session(123);
    assert!(has_client(&Some(client)));
    assert!(!world.has_local_player());
}

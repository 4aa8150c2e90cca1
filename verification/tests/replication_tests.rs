use netsync::codec::{QuatBits, SyncedTransform, Vec3Bits};
use netsync::connect::{start_client_session, start_server_session};
use netsync::registry::{
    has_client_and_local_player, init_players, Player, PlayerKind, ServerEvent,
};
use netsync::replication::{
    client_tick, decode_server_event, encode_server_event, server_tick, transform_client_handler,
    transform_client_sender, transform_server_handler, transform_server_sender,
    TransformClientEvent, TransformServerEvent,
};
use netsync::session::{Client, ClientId, SERVER_PEER_ID};

fn transform_at(x: f32) -> SyncedTransform {
    SyncedTransform {
        translation: Vec3Bits {
            x: x.to_bits(),
            y: 0.0f32.to_bits(),
            z: 0.0f32.to_bits(),
        },
        rotation: QuatBits {
            x: 0.0f32.to_bits(),
            y: 0.0f32.to_bits(),
            z: 0.0f32.to_bits(),
            w: 1.0f32.to_bits(),
        },
        scale: Vec3Bits {
            x: 1.0f32.to_bits(),
            y: 1.0f32.to_bits(),
            z: 1.0f32.to_bits(),
        },
    }
}

#[test]
fn ten_updates_last_write_wins() {
    let (_server, mut world) = start_server_session();
    let peer = ClientId(77);
    world.process_server_events(&vec![ServerEvent::ClientConnected { client_id: peer }]);

    let mut events: Vec<(ClientId, TransformClientEvent)> = Vec::new();
    for i in 0..10 {
        events.push((
            peer,
            TransformClientEvent {
                transform: transform_at(i as f32),
            },
        ));
    }
    transform_server_handler(&mut world, &events);

    let entity = world
        .entities
        .iter()
        .find(|e| e.player.client_id == peer)
        .unwrap();
    assert_eq!(entity.staging, Some(transform_at(9.0)));
}

#[test]
fn server_handler_drops_updates_for_unknown_peers() {
    let (_server, mut world) = start_server_session();
    let before = world.entities.clone();
    transform_server_handler(
        &mut world,
        &vec![(
            ClientId(999),
            TransformClientEvent {
                transform: transform_at(1.0),
            },
        )],
    );
    assert_eq!(world.entities, before);
}

#[test]
fn client_handler_ignores_records_for_the_local_entity() {
    let client_id: u64 = 42;
    let (_client, mut world) = start_client_session(client_id);
    init_players(
        &mut world,
        &vec![
            Player {
                client_id: ClientId(SERVER_PEER_ID),
            },
            Player {
                client_id: ClientId(client_id),
            },
        ],
    );

    transform_client_handler(
        &mut world,
        &vec![
            TransformServerEvent {
                client_id: ClientId(SERVER_PEER_ID),
                transform: transform_at(5.0),
            },
            TransformServerEvent {
                client_id: ClientId(client_id),
                transform: transform_at(-4.0),
            },
        ],
    );

    let server_entity = world
        .entities
        .iter()
        .find(|e| e.player.client_id == ClientId(SERVER_PEER_ID))
        .unwrap();
    assert_eq!(server_entity.staging, Some(transform_at(5.0)));

    let own = world
        .entities
        .iter()
        .find(|e| e.player.client_id == ClientId(client_id))
        .unwrap();
    // The local entity keeps no staging slot: the relayed echo of its own
    // transform was dropped.
    assert!(own.staging.is_none());
    assert!(matches!(own.kind, PlayerKind::Local));
}

#[test]
fn server_broadcast_lists_every_entity_with_its_owner() {
    let (_server, mut world) = start_server_session();
    world.process_server_events(&vec![ServerEvent::ClientConnected {
        client_id: ClientId(5),
    }]);

    let broadcast = transform_server_sender(&world);
    assert_eq!(broadcast.len(), 2);
    assert_eq!(broadcast[0].client_id, ClientId(SERVER_PEER_ID));
    assert_eq!(broadcast[1].client_id, ClientId(5));
    assert_eq!(broadcast[0].transform, world.entities[0].rendered);
    assert_eq!(broadcast[1].transform, world.entities[1].rendered);
}

#[test]
fn client_sends_its_own_rendered_transform() {
    let client_id: u64 = 42;
    let (client, mut world) = start_client_session(client_id);
    assert!(transform_client_sender(&world).is_none());
    assert!(!has_client_and_local_player(&Some(client), &world));

    init_players(
        &mut world,
        &vec![Player {
            client_id: ClientId(client_id),
        }],
    );
    assert!(has_client_and_local_player(&Some(client), &world));

    let moved = transform_at(12.5);
    let found = world.set_local_transform(moved);
    assert!(found);
    let event = transform_client_sender(&world).unwrap();
    assert_eq!(event.transform, moved);
}

#[test]
fn broadcast_survives_the_wire_end_to_end() {
    // Server: a peer is connected and has pushed a transform.
    let (_server, mut server_world) = start_server_session();
    let peer = ClientId(42);
    server_world.process_server_events(&vec![ServerEvent::ClientConnected { client_id: peer }]);
    transform_server_handler(
        &mut server_world,
        &vec![(
            peer,
            TransformClientEvent {
                transform: transform_at(6.25),
            },
        )],
    );

    // The broadcast goes out as bytes.
    let packets: Vec<Vec<u8>> = transform_server_sender(&server_world)
        .iter()
        .map(encode_server_event)
        .collect();

    // Client: decode every packet and merge the records.
    let (_client, mut client_world) = start_client_session(42);
    init_players(
        &mut client_world,
        &vec![
            Player {
                client_id: ClientId(SERVER_PEER_ID),
            },
            Player {
                client_id: ClientId(42),
            },
        ],
    );
    let mut events = Vec::new();
    for packet in &packets {
        events.push(decode_server_event(packet).unwrap());
    }
    transform_client_handler(&mut client_world, &events);

    let server_entity = client_world
        .entities
        .iter()
        .find(|e| e.player.client_id == ClientId(SERVER_PEER_ID))
        .unwrap();
    assert_eq!(
        server_entity.staging,
        Some(server_world.entities[0].rendered)
    );
}

#[test]
fn tick_pipeline_receives_before_it_sends() {
    // A peer connects and pushes a record within the same tick: the
    // broadcast taken at the end of that tick already reflects both.
    let (_server, mut server_world) = start_server_session();
    let peer = ClientId(31);
    let broadcast = server_tick(
        &mut server_world,
        &vec![ServerEvent::ClientConnected { client_id: peer }],
        &vec![(
            peer,
            TransformClientEvent {
                transform: transform_at(2.5),
            },
        )],
    );
    assert_eq!(server_world.entities.len(), 2);
    assert_eq!(broadcast.len(), 2);
    let entity = server_world
        .entities
        .iter()
        .find(|e| e.player.client_id == peer)
        .unwrap();
    assert_eq!(entity.staging, Some(transform_at(2.5)));

    // Client tick: observing the players and merging the broadcast happens
    // before the local record is taken for sending.
    let (_client, mut client_world) = start_client_session(31);
    let observed: Vec<Player> = broadcast
        .iter()
        .map(|e| Player {
            client_id: e.client_id,
        })
        .collect();
    let outbound = client_tick(&mut client_world, &observed, &broadcast);
    assert_eq!(client_world.entities.len(), 2);
    // The freshly classified local entity already sends in the same tick.
    assert!(outbound.is_some());
}

#[test]
fn no_client_role_means_no_client_send_gate() {
    let (_server, world) = start_server_session();
    let no_client: Option<Client> = None;
    assert!(!has_client_and_local_player(&no_client, &world));
}

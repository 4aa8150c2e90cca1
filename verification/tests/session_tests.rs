use netsync::session::{
    protocol_matches, ClientId, SessionState, DEFAULT_PORT, MAX_CLIENTS, MAX_TICK_RATE,
    PROTOCOL_ID, SERVER_PEER_ID,
};

#[test]
fn design_constants() {
    assert_eq!(PROTOCOL_ID, 0);
    assert_eq!(DEFAULT_PORT, 13001);
    assert_eq!(MAX_TICK_RATE, 30);
    assert_eq!(MAX_CLIENTS, 2);
    assert_eq!(SERVER_PEER_ID, 0);
}

#[test]
fn client_id_derives_from_the_wall_clock() {
    let id = ClientId::from_unix_millis(1_700_000_000_123);
    assert_eq!(id, ClientId(1_700_000_000_123));
    assert_eq!(ClientId::server(), ClientId(SERVER_PEER_ID));
}

#[test]
fn handshake_requires_matching_protocol_ids() {
    assert!(protocol_matches(PROTOCOL_ID, PROTOCOL_ID));
    assert!(!protocol_matches(PROTOCOL_ID, PROTOCOL_ID + 1));
}

#[test]
fn lifecycle_idle_to_server_and_back() {
    let mut state = SessionState::Idle;
    assert!(!state.is_connected());
    state.begin_attempt();
    assert_eq!(state, SessionState::Connecting);
    assert!(!state.is_connected());
    state.attempt_succeeded_as_server();
    assert_eq!(state, SessionState::ConnectedAsServer);
    assert!(state.is_connected());
    state.drop_connection();
    assert_eq!(state, SessionState::Idle);
}

#[test]
fn lifecycle_idle_to_client_and_back() {
    let mut state = SessionState::Idle;
    state.begin_attempt();
    state.attempt_succeeded_as_client(ClientId(555));
    assert_eq!(state, SessionState::ConnectedAsClient(ClientId(555)));
    assert!(state.is_connected());
    state.drop_connection();
    assert_eq!(state, SessionState::Idle);
}

#[test]
fn a_failed_attempt_returns_to_idle() {
    let mut state = SessionState::Idle;
    state.begin_attempt();
    // The socket bind or transport construction failed: no role installed.
    state.drop_connection();
    assert_eq!(state, SessionState::Idle);
}

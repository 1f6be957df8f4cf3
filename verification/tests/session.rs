use shooter_core::codec::{MultiplayerMessage, Vec3Bits};
use shooter_core::session::{
    inbound_event, transition_allowed, update_world_from_server_messages, MultiplayerState,
    WorldAction,
};

fn bits3(x: f32, y: f32, z: f32) -> Vec3Bits {
    Vec3Bits { x_bits: x.to_bits(), y_bits: y.to_bits(), z_bits: z.to_bits() }
}

#[test]
fn test_lifecycle_cycle() {
    assert!(transition_allowed(MultiplayerState::Disconnected, MultiplayerState::Connecting));
    assert!(transition_allowed(MultiplayerState::Connecting, MultiplayerState::Connected));
    assert!(transition_allowed(MultiplayerState::Connected, MultiplayerState::Disconnecting));
    assert!(transition_allowed(MultiplayerState::Disconnecting, MultiplayerState::Disconnected));
    assert!(!transition_allowed(MultiplayerState::Disconnected, MultiplayerState::Connected));
    assert!(!transition_allowed(MultiplayerState::Connecting, MultiplayerState::Disconnected));
    assert!(!transition_allowed(MultiplayerState::Connected, MultiplayerState::Connecting));
    assert!(!transition_allowed(MultiplayerState::Connected, MultiplayerState::Connected));
}

#[test]
fn test_inbound_event_classification() {
    let payload = MultiplayerMessage::Move { client_id: 3, location: bits3(1., 2., 3.) }
        .get_buf()
        .unwrap();
    match inbound_event(&payload) {
        Some(MultiplayerMessage::Move { client_id, .. }) => assert_eq!(client_id, 3),
        _ => panic!("a valid move must come through"),
    }
    // an undecodable datagram is dropped, not enqueued
    assert!(inbound_event(&[0xABu8; 16]).is_none());
    assert!(inbound_event(&[]).is_none());
}

#[test]
fn test_update_world_from_server_messages() {
    let own_id: u64 = 1;
    let spawned: Vec<u64> = vec![1, 5];
    let messages: Vec<MultiplayerMessage> = vec![
        // a new player appears
        MultiplayerMessage::Connect {
            client_id: 2,
            location: bits3(8., 4., 0.),
            direction: bits3(0., 0., 0.),
            name: b"bob".to_vec(),
        },
        // our own spawn confirmation positions the first person
        MultiplayerMessage::Connect {
            client_id: 1,
            location: bits3(4., 4., 0.),
            direction: bits3(0., 0., 0.),
            name: b"me".to_vec(),
        },
        // a known other player moves
        MultiplayerMessage::Move { client_id: 5, location: bits3(7., 7., 7.) },
        // echoes about ourselves do not move or despawn us
        MultiplayerMessage::Move { client_id: 1, location: bits3(9., 9., 9.) },
        MultiplayerMessage::Disconnect { client_id: 1 },
        // a known other player leaves
        MultiplayerMessage::Disconnect { client_id: 5 },
        // moves for players not yet in the world are dropped
        MultiplayerMessage::Move { client_id: 2, location: bits3(1., 1., 1.) },
        MultiplayerMessage::Invalid,
    ];
    let actions = update_world_from_server_messages(&messages, &spawned, own_id);
    assert_eq!(actions.len(), 4);
    match &actions[0] {
        WorldAction::Spawn { client_id, name, location } => {
            assert_eq!(*client_id, 2);
            assert_eq!(name, &b"bob".to_vec());
            assert_eq!(location.x_bits, 8.0f32.to_bits());
        }
        _ => panic!("expected the spawn of player 2"),
    }
    match &actions[1] {
        WorldAction::Position { client_id, location } => {
            assert_eq!(*client_id, 1);
            assert_eq!(location.x_bits, 4.0f32.to_bits());
        }
        _ => panic!("expected our own positioning"),
    }
    match &actions[2] {
        WorldAction::Position { client_id, location } => {
            assert_eq!(*client_id, 5);
            assert_eq!(location.x_bits, 7.0f32.to_bits());
        }
        _ => panic!("expected the move of player 5"),
    }
    match &actions[3] {
        WorldAction::Despawn { client_id } => assert_eq!(*client_id, 5),
        _ => panic!("expected the despawn of player 5"),
    }
}

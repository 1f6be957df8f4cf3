use shooter_core::codec::{MultiplayerMessage, Vec3Bits};
use shooter_core::registry::{
    get_player_num, initialise_new_player, Player, Registry, Username, NETCODE_USER_DATA_BYTES,
};
use shooter_core::router::{
    build_send_plan, handle_server_result, push_disconnect_client_messages,
    push_new_client_messages, resolve_destination, Destination, ServerEvent,
};

fn zero3() -> Vec3Bits {
    Vec3Bits { x_bits: 0, y_bits: 0, z_bits: 0 }
}

fn player(name: &str, num: u8) -> Player {
    Player { location: zero3(), direction: zero3(), name: name.as_bytes().to_vec(), num }
}

fn spawn_x(num: u32) -> u32 {
    ((num * 4) as f32).to_bits()
}

#[test]
fn test_get_player_num() {
    let mut players = Registry::new();
    assert_eq!(0, get_player_num(&players));
    players.insert(111, player("shrubbo", 0));
    players.insert(222, player("shrubbo1", 5));
    assert_eq!(5, get_player_num(&players));
    players.insert(311, player("shrubbo", 6));
    assert_eq!(6, get_player_num(&players));
}

#[test]
fn test_spawn_allocation() {
    // players already at spawn slots 0, 5 and 6, standing at the
    // positions those slots derive
    let mut players = Registry::new();
    for (cid, num) in [(1u64, 0u8), (2, 5), (3, 6)] {
        let mut p = player("p", num);
        p.location = Vec3Bits { x_bits: spawn_x(num as u32), y_bits: 4.0f32.to_bits(), z_bits: 0 };
        players.insert(cid, p);
    }
    let joined = initialise_new_player(&players, b"fresh".to_vec());
    assert_eq!(joined.num, 7);
    assert_eq!(joined.location.x_bits, 28.0f32.to_bits());
    assert_eq!(joined.location.y_bits, 4.0f32.to_bits());
    assert_eq!(joined.location.z_bits, 0);
    for num in [0u32, 5, 6] {
        assert_ne!(
            (joined.location.x_bits, joined.location.y_bits, joined.location.z_bits),
            (spawn_x(num), 4.0f32.to_bits(), 0)
        );
    }
}

#[test]
fn test_username_roundtrip() {
    let username = Username(b"shrubbo".to_vec());
    let blob = username.to_netcode_user_data();
    assert_eq!(blob.len(), NETCODE_USER_DATA_BYTES);
    assert_eq!(blob[0], 7);
    let back = Username::from_user_data(&blob);
    assert_eq!(back.0, b"shrubbo".to_vec());
}

#[test]
fn test_username_length_clamped() {
    let mut blob = vec![0u8; NETCODE_USER_DATA_BYTES];
    blob[0] = 0xFF;
    blob[1] = 0xFF;
    let back = Username::from_user_data(&blob);
    assert_eq!(back.0.len(), NETCODE_USER_DATA_BYTES - 8);
}

#[test]
fn test_routing_resolution() {
    let clients: Vec<u64> = vec![1, 2, 3];
    assert_eq!(resolve_destination(Destination::NotPlayer(2), &clients), vec![1, 3]);
    assert_eq!(resolve_destination(Destination::Player(9), &clients), Vec::<u64>::new());
    assert_eq!(resolve_destination(Destination::All, &clients), vec![1, 2, 3]);
    assert_eq!(resolve_destination(Destination::Player(2), &clients), vec![2]);
}

#[test]
fn test_join_replay() {
    let mut players = Registry::new();
    let mut one = player("one", 1);
    one.location = Vec3Bits { x_bits: 4.0f32.to_bits(), y_bits: 4.0f32.to_bits(), z_bits: 0 };
    players.insert(1, one);
    let mut two = player("two", 2);
    two.location = Vec3Bits { x_bits: 8.0f32.to_bits(), y_bits: 4.0f32.to_bits(), z_bits: 0 };
    players.insert(2, two);

    let mut messages: Vec<(Destination, MultiplayerMessage)> = Vec::new();
    let user_data = Username(b"dave".to_vec()).to_netcode_user_data();
    handle_server_result(
        ServerEvent::ClientConnected { client_id: 4, user_data },
        &mut messages,
        &mut players,
    );

    assert_eq!(messages.len(), 3);
    match &messages[0] {
        (Destination::All, MultiplayerMessage::Connect { client_id, name, location, .. }) => {
            assert_eq!(*client_id, 4);
            assert_eq!(name, &b"dave".to_vec());
            // slot 3 follows the high-water mark 2
            assert_eq!(location.x_bits, 12.0f32.to_bits());
        }
        _ => panic!("expected the newcomer's broadcast first"),
    }
    match &messages[1] {
        (Destination::Player(4), MultiplayerMessage::Connect { client_id, name, .. }) => {
            assert_eq!(*client_id, 1);
            assert_eq!(name, &b"one".to_vec());
        }
        _ => panic!("expected the replay of player 1"),
    }
    match &messages[2] {
        (Destination::Player(4), MultiplayerMessage::Connect { client_id, name, .. }) => {
            assert_eq!(*client_id, 2);
            assert_eq!(name, &b"two".to_vec());
        }
        _ => panic!("expected the replay of player 2"),
    }
}

#[test]
fn test_push_new_client_messages_alone() {
    let mut players = Registry::new();
    players.insert(7, player("solo", 1));
    let mut messages: Vec<(Destination, MultiplayerMessage)> = Vec::new();
    push_new_client_messages(7, &mut messages, &players);
    // no other players: just the broadcast, no replay
    assert_eq!(messages.len(), 1);
    assert!(matches!(
        messages[0],
        (Destination::All, MultiplayerMessage::Connect { client_id: 7, .. })
    ));
}

#[test]
fn test_move_mutation() {
    let mut players = Registry::new();
    players.insert(1, player("one", 1));
    players.insert(2, player("two", 2));
    let target = Vec3Bits {
        x_bits: 9.5f32.to_bits(),
        y_bits: 1.25f32.to_bits(),
        z_bits: (-3.0f32).to_bits(),
    };
    let payload = MultiplayerMessage::Move { client_id: 2, location: target }
        .get_buf()
        .unwrap();

    let mut messages: Vec<(Destination, MultiplayerMessage)> = Vec::new();
    handle_server_result(
        ServerEvent::Payload { client_id: 2, payload },
        &mut messages,
        &mut players,
    );

    assert_eq!(players.get(2).unwrap().location, target);
    assert_eq!(players.get(1).unwrap().location, zero3());
    assert_eq!(messages.len(), 1);
    match &messages[0] {
        (Destination::NotPlayer(2), MultiplayerMessage::Move { client_id, location }) => {
            assert_eq!(*client_id, 2);
            assert_eq!(*location, target);
        }
        _ => panic!("expected exactly the move fan-out"),
    }
}

#[test]
fn test_move_for_unknown_player_dropped() {
    let mut players = Registry::new();
    players.insert(1, player("one", 1));
    let payload = MultiplayerMessage::Move { client_id: 9, location: zero3() }
        .get_buf()
        .unwrap();
    let mut messages: Vec<(Destination, MultiplayerMessage)> = Vec::new();
    handle_server_result(
        ServerEvent::Payload { client_id: 9, payload },
        &mut messages,
        &mut players,
    );
    assert_eq!(players.len(), 1);
    assert!(messages.is_empty());
}

#[test]
fn test_client_sent_connect_rejected() {
    let mut players = Registry::new();
    players.insert(1, player("one", 1));
    let payload = MultiplayerMessage::Connect {
        client_id: 1,
        location: zero3(),
        direction: zero3(),
        name: b"spoof".to_vec(),
    }
    .get_buf()
    .unwrap();
    let mut messages: Vec<(Destination, MultiplayerMessage)> = Vec::new();
    handle_server_result(
        ServerEvent::Payload { client_id: 1, payload },
        &mut messages,
        &mut players,
    );
    assert_eq!(players.get(1).unwrap().name, b"one".to_vec());
    assert!(messages.is_empty());
}

#[test]
fn test_disconnect_idempotent() {
    let mut players = Registry::new();
    players.insert(1, player("one", 1));

    let mut messages: Vec<(Destination, MultiplayerMessage)> = Vec::new();
    // client 5 was never tracked: the removal is a safe no-op and the
    // broadcast still goes out
    handle_server_result(
        ServerEvent::ClientDisconnected { client_id: 5 },
        &mut messages,
        &mut players,
    );
    assert_eq!(players.len(), 1);
    assert_eq!(messages.len(), 1);
    assert!(matches!(
        messages[0],
        (Destination::All, MultiplayerMessage::Disconnect { client_id: 5 })
    ));

    handle_server_result(
        ServerEvent::ClientDisconnected { client_id: 1 },
        &mut messages,
        &mut players,
    );
    assert_eq!(players.len(), 0);
    assert_eq!(messages.len(), 2);
    assert!(matches!(
        messages[1],
        (Destination::All, MultiplayerMessage::Disconnect { client_id: 1 })
    ));
}

#[test]
fn test_push_disconnect_message() {
    let mut messages: Vec<(Destination, MultiplayerMessage)> = Vec::new();
    push_disconnect_client_messages(42, &mut messages);
    assert_eq!(messages.len(), 1);
    assert!(matches!(
        messages[0],
        (Destination::All, MultiplayerMessage::Disconnect { client_id: 42 })
    ));
}

#[test]
fn test_send_plan() {
    let clients: Vec<u64> = vec![1, 2, 3];
    let messages: Vec<(Destination, MultiplayerMessage)> = vec![
        (Destination::All, MultiplayerMessage::Disconnect { client_id: 7 }),
        (
            Destination::NotPlayer(2),
            MultiplayerMessage::Move { client_id: 2, location: zero3() },
        ),
        (Destination::All, MultiplayerMessage::Invalid),
        (Destination::Player(3), MultiplayerMessage::Disconnect { client_id: 8 }),
    ];
    let plan = build_send_plan(&messages, &clients);
    let disconnect7 = MultiplayerMessage::Disconnect { client_id: 7 }.get_buf().unwrap();
    let move2 = MultiplayerMessage::Move { client_id: 2, location: zero3() }
        .get_buf()
        .unwrap();
    let disconnect8 = MultiplayerMessage::Disconnect { client_id: 8 }.get_buf().unwrap();
    let expected: Vec<(u64, Vec<u8>)> = vec![
        (1, disconnect7.clone()),
        (2, disconnect7.clone()),
        (3, disconnect7),
        (1, move2.clone()),
        (3, move2),
        // the sentinel contributes nothing
        (3, disconnect8),
    ];
    assert_eq!(plan, expected);
}

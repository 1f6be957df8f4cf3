use shooter_core::codec::{EncodeError, MultiplayerMessage, Vec3Bits, MAX_NAME_BYTES};
use shooter_core::float_bits::f32_bits_of_uint;

fn vec3_of(x: f32, y: f32, z: f32) -> Vec3Bits {
    Vec3Bits { x_bits: x.to_bits(), y_bits: y.to_bits(), z_bits: z.to_bits() }
}

#[test]
fn test_multiplayermessage_connect() {
    let mess = MultiplayerMessage::Connect {
        client_id: 77u64,
        location: vec3_of(1.1f32, 2.2f32, 3.3f32),
        direction: vec3_of(4.4f32, 5.5f32, 6.6f32),
        name: b"ikky".to_vec(),
    };
    let buf = mess.get_buf().unwrap();
    println!("buf:{:?}", buf);
    let connect: MultiplayerMessage = MultiplayerMessage::get(&buf);
    match connect {
        MultiplayerMessage::Connect { client_id, location, direction, name } => {
            assert_eq!(client_id, 77);
            assert_eq!(location, vec3_of(1.1f32, 2.2f32, 3.3f32));
            assert_eq!(direction, vec3_of(4.4f32, 5.5f32, 6.6f32));
            assert_eq!(name, b"ikky".to_vec());
        }
        _ => panic!("test_multiplayermessage_connect fail!"),
    };
}

#[test]
fn test_multiplayermessage_disconnect() {
    let mess = MultiplayerMessage::Disconnect { client_id: 77u64 };
    let buf = mess.get_buf().unwrap();
    println!("buf:{:?}", buf);
    let disconnect: MultiplayerMessage = MultiplayerMessage::get(&buf);
    match disconnect {
        MultiplayerMessage::Disconnect { client_id } => {
            assert_eq!(client_id, 77);
        }
        _ => panic!("test_multiplayermessage_connect fail!"),
    }
}

#[test]
fn test_multiplayermessage_move() {
    let mess = MultiplayerMessage::Move {
        client_id: 78u64,
        location: vec3_of(1., 2., 3.),
    };
    let buf = mess.get_buf().unwrap();
    let move_msg: MultiplayerMessage = MultiplayerMessage::get(&buf);
    match move_msg {
        MultiplayerMessage::Move { client_id, location } => {
            assert_eq!(client_id, 78);
            assert_eq!(location.x_bits, 1.0f32.to_bits());
            assert_eq!(location.y_bits, 2.0f32.to_bits());
            assert_eq!(location.z_bits, 3.0f32.to_bits());
        }
        _ => panic!("test_multiplayermessage_connect fail!"),
    }
}

#[test]
fn test_disconnect_exact_bytes() {
    let buf = MultiplayerMessage::Disconnect { client_id: 0x0102030405060708 }
        .get_buf()
        .unwrap();
    assert_eq!(buf.len(), 100);
    assert_eq!(buf[0], 2);
    assert_eq!(&buf[1..9], &[0x08, 0x07, 0x06, 0x05, 0x04, 0x03, 0x02, 0x01]);
    assert!(buf[9..].iter().all(|b| *b == 0));
}

#[test]
fn test_move_exact_bytes() {
    let buf = MultiplayerMessage::Move {
        client_id: 5,
        location: vec3_of(1.0, -2.0, 0.5),
    }
    .get_buf()
    .unwrap();
    assert_eq!(buf.len(), 100);
    assert_eq!(buf[0], 3);
    assert_eq!(buf[1], 5);
    assert_eq!(&buf[9..13], &1.0f32.to_le_bytes());
    assert_eq!(&buf[13..17], &(-2.0f32).to_le_bytes());
    assert_eq!(&buf[17..21], &0.5f32.to_le_bytes());
    assert!(buf[21..].iter().all(|b| *b == 0));
}

#[test]
fn test_get_id_values() {
    assert_eq!(MultiplayerMessage::Invalid.get_id(), 0);
    assert_eq!(
        MultiplayerMessage::Connect {
            client_id: 1,
            location: vec3_of(0., 0., 0.),
            direction: vec3_of(0., 0., 0.),
            name: vec![],
        }
        .get_id(),
        1
    );
    assert_eq!(MultiplayerMessage::Disconnect { client_id: 1 }.get_id(), 2);
    assert_eq!(
        MultiplayerMessage::Move { client_id: 1, location: vec3_of(0., 0., 0.) }.get_id(),
        3
    );
}

#[test]
fn test_encode_invalid_fails() {
    match MultiplayerMessage::Invalid.get_buf() {
        Err(EncodeError::NoMessage) => {}
        _ => panic!("encoding the sentinel must fail"),
    }
}

#[test]
fn test_name_boundary_roundtrip() {
    let name: Vec<u8> = vec![b'a'; MAX_NAME_BYTES];
    let mess = MultiplayerMessage::Connect {
        client_id: 9,
        location: vec3_of(1., 2., 3.),
        direction: vec3_of(4., 5., 6.),
        name: name.clone(),
    };
    let buf = mess.get_buf().unwrap();
    assert_eq!(buf.len(), 100);
    match MultiplayerMessage::get(&buf) {
        MultiplayerMessage::Connect { name: decoded, .. } => {
            assert_eq!(decoded.len(), MAX_NAME_BYTES);
            assert_eq!(decoded, name);
        }
        _ => panic!("boundary-length name must decode"),
    }
}

#[test]
fn test_empty_name_roundtrip() {
    let mess = MultiplayerMessage::Connect {
        client_id: 0,
        location: vec3_of(0., 0., 0.),
        direction: vec3_of(0., 0., 0.),
        name: Vec::new(),
    };
    let buf = mess.get_buf().unwrap();
    match MultiplayerMessage::get(&buf) {
        MultiplayerMessage::Connect { client_id, name, .. } => {
            assert_eq!(client_id, 0);
            assert!(name.is_empty());
        }
        _ => panic!("an empty name must round-trip"),
    }
}

#[test]
fn test_name_too_long_rejected() {
    let mess = MultiplayerMessage::Connect {
        client_id: 9,
        location: vec3_of(1., 2., 3.),
        direction: vec3_of(4., 5., 6.),
        name: vec![b'a'; MAX_NAME_BYTES + 1],
    };
    match mess.get_buf() {
        Err(EncodeError::NameTooLong) => {}
        _ => panic!("an oversized name must be rejected, not truncated"),
    }
}

#[test]
fn test_decode_unknown_tag() {
    let buf = [9u8; 100];
    assert!(matches!(MultiplayerMessage::get(&buf), MultiplayerMessage::Invalid));
    let empty: [u8; 0] = [];
    assert!(matches!(MultiplayerMessage::get(&empty), MultiplayerMessage::Invalid));
}

#[test]
fn test_decode_truncated() {
    // a Disconnect needs nine bytes
    assert!(matches!(
        MultiplayerMessage::get(&[2u8, 1, 2, 3]),
        MultiplayerMessage::Invalid
    ));
    // a Move needs twenty-one
    assert!(matches!(
        MultiplayerMessage::get(&[3u8; 20]),
        MultiplayerMessage::Invalid
    ));
    // a Connect needs thirty-four before the name
    assert!(matches!(
        MultiplayerMessage::get(&[1u8; 33]),
        MultiplayerMessage::Invalid
    ));
    // a Connect whose length byte promises more name than is there
    let mut short = [0u8; 40];
    short[0] = 1;
    short[33] = 255;
    assert!(matches!(MultiplayerMessage::get(&short), MultiplayerMessage::Invalid));
}

#[test]
fn test_f32_bits_match_hardware() {
    for n in [0u32, 1, 2, 3, 4, 5, 7, 20, 28, 100, 255, 640, 1020, 1024, 65536, 8388608] {
        assert_eq!(f32_bits_of_uint(n), (n as f32).to_bits(), "bits of {}", n);
    }
}

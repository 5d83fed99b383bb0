use mcproto::packet::{FieldValue, Packet};
use mcproto::registry::EntityManager;
use mcproto::session::{
    client_statuses_packet, handshake_on_key_request, handshake_packet, handshake_step,
    outbound_cipher, position_echo_packet, send_retry_step, serialize_packet,
    session_handle_packet, HandshakeAction, HandshakePhase, SessionAction, SessionState,
};
use mcproto::stream::StreamDecoder;
use mcproto::world::World;

fn utf16(s: &str) -> Vec<u16> {
    s.encode_utf16().collect()
}

#[test]
fn handshake_follows_the_expected_sequence() {
    let (p1, a1) = handshake_step(HandshakePhase::AwaitKeyRequest, 0xfd);
    assert_eq!(p1, HandshakePhase::AwaitConfirm);
    assert_eq!(a1, HandshakeAction::SendKeyResponse);
    let (p2, a2) = handshake_step(p1, 0xfc);
    assert_eq!(p2, HandshakePhase::Established);
    assert_eq!(a2, HandshakeAction::ConfirmAndAck);
}

#[test]
fn handshake_sequence_violation_is_fatal() {
    // the first packet must be the key request; anything else kills the
    // session for good
    let (p, a) = handshake_step(HandshakePhase::AwaitKeyRequest, 0x01);
    assert_eq!(p, HandshakePhase::Failed);
    assert_eq!(a, HandshakeAction::Fatal);
    let (p2, a2) = handshake_step(p, 0xfd);
    assert_eq!(p2, HandshakePhase::Failed);
    assert_eq!(a2, HandshakeAction::Fatal);
    let (p3, a3) = handshake_step(HandshakePhase::AwaitConfirm, 0x00);
    assert_eq!(p3, HandshakePhase::Failed);
    assert_eq!(a3, HandshakeAction::Fatal);
}

#[test]
fn handshake_packet_frames_protocol_61() {
    let p = handshake_packet(utf16("Urist"), utf16("localhost"), 25565);
    assert_eq!(p.id, 0x02);
    let bytes = serialize_packet(&p).expect("encodable");
    assert_eq!(bytes[0], 0x02);
    assert_eq!(bytes[1], 61);
    let ack = client_statuses_packet(0);
    assert_eq!(serialize_packet(&ack).unwrap(), vec![0xcd, 0]);
}

#[test]
fn key_exchange_round_trips_through_the_real_ciphers() {
    // the server side: an RSA key pair and a verification token
    let rsa = openssl::rsa::Rsa::generate(1024).unwrap();
    let der = rsa.public_key_to_der().unwrap();
    let token = [9u8, 8, 7, 6];

    let (secret, response) = handshake_on_key_request(&der, &token).unwrap();
    assert_eq!(secret.len(), 16);
    assert_eq!(response.id, 0xfc);
    let bytes = serialize_packet(&response).expect("encodable");
    assert_eq!(bytes[0], 0xfc);

    // the server can recover both the secret and the token
    let (enc_secret, enc_token) = match (&response.fields[0], &response.fields[1]) {
        (FieldValue::Blob(a), FieldValue::Blob(b)) => (a.clone(), b.clone()),
        other => panic!("unexpected fields {:?}", other),
    };
    let mut out = vec![0u8; rsa.size() as usize];
    let n = rsa.private_decrypt(&enc_secret, &mut out, openssl::rsa::Padding::PKCS1).unwrap();
    assert_eq!(&out[..n], &secret[..]);
    let mut out2 = vec![0u8; rsa.size() as usize];
    let n2 = rsa.private_decrypt(&enc_token, &mut out2, openssl::rsa::Padding::PKCS1).unwrap();
    assert_eq!(&out2[..n2], &token[..]);

    // both directions agree on the session cipher seeded by the secret
    let mut enc = outbound_cipher(&secret).unwrap();
    let frame = serialize_packet(&client_statuses_packet(0)).unwrap();
    let sealed = mcproto::session::encrypt_outbound(&mut enc, &frame).unwrap();
    assert_eq!(sealed.len(), frame.len());
    let mut sd = StreamDecoder::new();
    sd.set_decryption_key(&secret).unwrap();
    sd.enable_decryption().unwrap();
    sd.feed(&sealed).unwrap();
    assert_eq!(sd.read_bytes(frame.len()).unwrap(), frame);
}

#[test]
fn send_retry_budget() {
    assert_eq!(send_retry_step(3, true, 5), Some(0));
    assert_eq!(send_retry_step(0, false, 5), Some(1));
    assert_eq!(send_retry_step(4, false, 5), Some(5));
    assert_eq!(send_retry_step(5, false, 5), None);
}

#[test]
fn dispatch_health_and_respawn() {
    let mut sess = SessionState::new();
    let mut world = World::new();
    let mut reg = EntityManager::init(Vec::new());
    let p = Packet {
        id: 0x08,
        fields: vec![
            FieldValue::I16(0),
            FieldValue::I16(14),
            FieldValue::F32((2.5f32).to_bits()),
        ],
    };
    let r = session_handle_packet(&mut sess, &mut world, &mut reg, &p, 0).unwrap();
    assert_eq!(r, Some(SessionAction::SendRespawn));
    assert_eq!(sess.hp, 0);
    assert_eq!(sess.food, 14);
    assert_eq!(f32::from_bits(sess.saturation_bits), 2.5);

    let healthy = Packet {
        id: 0x08,
        fields: vec![
            FieldValue::I16(20),
            FieldValue::I16(20),
            FieldValue::F32(0),
        ],
    };
    let r2 = session_handle_packet(&mut sess, &mut world, &mut reg, &healthy, 0).unwrap();
    assert_eq!(r2, None);
}

#[test]
fn dispatch_disconnect_and_spawn_position() {
    let mut sess = SessionState::new();
    let mut world = World::new();
    let mut reg = EntityManager::init(Vec::new());
    let sp = Packet {
        id: 0x06,
        fields: vec![FieldValue::I32(0), FieldValue::I32(64), FieldValue::I32(0)],
    };
    let r = session_handle_packet(&mut sess, &mut world, &mut reg, &sp, 0).unwrap();
    assert_eq!(r, Some(SessionAction::SendClientSettings));
    let dc = Packet { id: 0xff, fields: vec![FieldValue::Str(utf16("bye"))] };
    let r2 = session_handle_packet(&mut sess, &mut world, &mut reg, &dc, 0).unwrap();
    assert_eq!(r2, Some(SessionAction::Stop));
    assert!(sess.stop);
}

#[test]
fn dispatch_position_echo_swaps_height_and_stance() {
    let mut sess = SessionState::new();
    let mut world = World::new();
    let mut reg = EntityManager::init(Vec::new());
    let x = (1.0f64).to_bits();
    let y = (64.0f64).to_bits();
    let stance = (65.6f64).to_bits();
    let z = (2.0f64).to_bits();
    let p = Packet {
        id: 0x0d,
        fields: vec![
            FieldValue::F64(x),
            FieldValue::F64(y),
            FieldValue::F64(stance),
            FieldValue::F64(z),
            FieldValue::F32(0),
            FieldValue::F32(0),
            FieldValue::Bool(true),
        ],
    };
    let r = session_handle_packet(&mut sess, &mut world, &mut reg, &p, 0).unwrap();
    match r {
        Some(SessionAction::EchoPositionAndLook { x: ex, y: ey, stance: es, z: ez, .. }) => {
            assert_eq!((ex, ey, es, ez), (x, y, stance, z));
            let echo = position_echo_packet(ex, ey, es, ez, 0, 0, true);
            // the echo swaps height and stance back, per the protocol
            assert_eq!(echo.fields[1], FieldValue::F64(es));
            assert_eq!(echo.fields[2], FieldValue::F64(ey));
            assert!(serialize_packet(&echo).is_some());
        },
        other => panic!("expected an echo action, got {:?}", other),
    }
}

#[test]
fn dispatch_tracks_known_entities() {
    let mut sess = SessionState::new();
    let mut world = World::new();
    let mut reg = EntityManager::init(Vec::new());
    let spawn = Packet {
        id: 0x18,
        fields: vec![
            FieldValue::I32(7),
            FieldValue::U8(54),
            FieldValue::I32(320),
            FieldValue::I32(2048),
            FieldValue::I32(320),
            FieldValue::I8(0),
            FieldValue::I8(0),
            FieldValue::I8(0),
            FieldValue::I16(0),
            FieldValue::I16(0),
            FieldValue::I16(0),
            FieldValue::Meta(mcproto::packet::Metadata {
                on_fire: false,
                crouching: false,
                riding: false,
                sprinting: false,
                acting: false,
                invisible: false,
                name: None,
                unknown: Vec::new(),
            }),
        ],
    };
    session_handle_packet(&mut sess, &mut world, &mut reg, &spawn, 0).unwrap();
    assert!(sess.known.contains(&7));
    assert_eq!(reg.entities.len(), 1);

    let destroy = Packet { id: 0x1d, fields: vec![FieldValue::I32Vec(vec![7])] };
    session_handle_packet(&mut sess, &mut world, &mut reg, &destroy, 0).unwrap();
    assert!(!sess.known.contains(&7));
    // the entity is orphaned, pending resolution
    assert_eq!(reg.entities[0].owner, None);
}

#[test]
fn dispatch_ignores_unrelated_packets() {
    let mut sess = SessionState::new();
    let mut world = World::new();
    let mut reg = EntityManager::init(Vec::new());
    let p = Packet { id: 0x04, fields: vec![FieldValue::I64(1), FieldValue::I64(2)] };
    let r = session_handle_packet(&mut sess, &mut world, &mut reg, &p, 0).unwrap();
    assert_eq!(r, None);
    assert!(!sess.stop);
    assert!(reg.entities.is_empty());
}

#[test]
fn positions_utilities() {
    assert_eq!(mcproto::util::pos_add((1, 2, 3), (10, -2, 0)), (11, 0, 3));
    assert_eq!(mcproto::util::pos_sub((1, 2, 3), (1, 2, 3)), (0, 0, 0));
    assert!(mcproto::util::in_square((1, 0, 1), (0, 0, 0), 2, 2));
    assert!(!mcproto::util::in_square((3, 0, 0), (0, 0, 0), 2, 2));
    let nbt = mcproto::nbt::NbtData::from_bytes(&[1, 2, 3]);
    assert_eq!(nbt.len(), 3);
    assert_eq!(nbt.to_bytes(), vec![1, 2, 3]);
}

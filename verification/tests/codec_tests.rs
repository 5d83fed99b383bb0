use mcproto::decoder::decode_packet;
use mcproto::encoder::encode_packet;
use mcproto::codec::DecodeError;
use mcproto::nbt::NbtData;
use mcproto::packet::{FieldValue, Packet, Slot};

fn utf16(s: &str) -> Vec<u16> {
    s.encode_utf16().collect()
}

#[test]
fn round_trip_keep_alive() {
    let p = Packet { id: 0x00, fields: vec![FieldValue::I32(-77)] };
    let bytes = encode_packet(&p).expect("encodable");
    assert_eq!(bytes, vec![0x00, 0xff, 0xff, 0xff, 0xb3]);
    let (q, n) = decode_packet(&bytes).expect("decodes");
    assert_eq!(n, bytes.len());
    assert_eq!(q, p);
}

#[test]
fn round_trip_handshake_with_strings() {
    let p = Packet {
        id: 0x02,
        fields: vec![
            FieldValue::U8(61),
            FieldValue::Str(utf16("Urist")),
            FieldValue::Str(utf16("localhost")),
            FieldValue::I32(25565),
        ],
    };
    let bytes = encode_packet(&p).expect("encodable");
    let (q, n) = decode_packet(&bytes).expect("decodes");
    assert_eq!(n, bytes.len());
    assert_eq!(q, p);
}

#[test]
fn round_trip_click_window_with_nbt_slot() {
    let p = Packet {
        id: 0x66,
        fields: vec![
            FieldValue::U8(1),
            FieldValue::U16(3),
            FieldValue::U8(0),
            FieldValue::U16(42),
            FieldValue::U8(0),
            FieldValue::SlotF(Slot::ItemNbt {
                id: 276,
                count: 1,
                damage: 10,
                nbt: NbtData::from_bytes(&[1, 2, 3, 4]),
            }),
        ],
    };
    let bytes = encode_packet(&p).expect("encodable");
    let (q, n) = decode_packet(&bytes).expect("decodes");
    assert_eq!(n, bytes.len());
    assert_eq!(q, p);
}

#[test]
fn round_trip_empty_and_plain_slots() {
    for slot in [Slot::Empty, Slot::Item { id: 5, count: 64, damage: -1 }] {
        let p = Packet {
            id: 0x67,
            fields: vec![
                FieldValue::I8(0),
                FieldValue::I16(36),
                FieldValue::SlotF(slot),
            ],
        };
        let bytes = encode_packet(&p).expect("encodable");
        let (q, n) = decode_packet(&bytes).expect("decodes");
        assert_eq!(n, bytes.len());
        assert_eq!(q, p);
    }
}

#[test]
fn round_trip_player_position_and_look_bits() {
    let p = Packet {
        id: 0x0d,
        fields: vec![
            FieldValue::F64((10.5f64).to_bits()),
            FieldValue::F64((64.0f64).to_bits()),
            FieldValue::F64((65.8f64).to_bits()),
            FieldValue::F64((-3.25f64).to_bits()),
            FieldValue::F32((90.0f32).to_bits()),
            FieldValue::F32((-45.0f32).to_bits()),
            FieldValue::Bool(true),
        ],
    };
    let bytes = encode_packet(&p).expect("encodable");
    let (q, n) = decode_packet(&bytes).expect("decodes");
    assert_eq!(n, bytes.len());
    assert_eq!(q, p);
}

#[test]
fn unknown_identifier_is_fatal() {
    // 0x15 has no layout: decoding must fail with the unknown-id error.
    let r = decode_packet(&[0x15, 0, 0, 0, 0]);
    assert_eq!(r, Err(DecodeError::UnknownPacketId(0x15)));
}

#[test]
fn truncated_packet_asks_for_more() {
    // KeepAlive needs four more bytes after the id.
    let r = decode_packet(&[0x00, 0x01, 0x02]);
    assert_eq!(r, Err(DecodeError::NeedMore));
    let r2 = decode_packet(&[]);
    assert_eq!(r2, Err(DecodeError::NeedMore));
}

#[test]
fn negative_blob_length_is_oversized() {
    // PluginMessage: channel string, then a blob; craft a huge (negative
    // i32) length on a MultiBlockChange payload instead.
    // MultiBlockChange: x, z, record count, then i32 length -1.
    let bytes = [
        0x34, 0, 0, 0, 1, 0, 0, 0, 2, 0, 3, 0xff, 0xff, 0xff, 0xff,
    ];
    let r = decode_packet(&bytes);
    assert_eq!(r, Err(DecodeError::Oversized));
}

#[test]
fn missing_required_nbt_is_malformed() {
    // UpdateTileEntity requires tag data; a minus-one length is malformed.
    let bytes = [
        0x84, 0, 0, 0, 9, 0, 64, 0, 0, 0, 9, 2, 0xff, 0xff,
    ];
    let r = decode_packet(&bytes);
    assert_eq!(r, Err(DecodeError::Malformed));
}

#[test]
fn decode_entity_destroy_list() {
    let bytes = [0x1d, 2, 0, 0, 0, 7, 0, 0, 0, 9];
    let (p, n) = decode_packet(&bytes).expect("decodes");
    assert_eq!(n, bytes.len());
    assert_eq!(p.id, 0x1d);
    assert_eq!(p.fields, vec![FieldValue::I32Vec(vec![7, 9])]);
}

#[test]
fn decode_metadata_entries() {
    // SpawnMob: eid, type, x, y, z, pitch, head pitch, yaw, dx, dy, dz,
    // then metadata: flags entry (id 0, type 0), then the terminator.
    let bytes = [
        0x18, 0, 0, 0, 7, 54, 0, 0, 1, 64, 0, 0, 8, 0, 0, 0, 1, 64, 0, 0, 0, 0, 0, 0, 0, 0, 0,
        0x00, 0x02, 0x7f,
    ];
    let (p, n) = decode_packet(&bytes).expect("decodes");
    assert_eq!(n, bytes.len());
    assert_eq!(p.id, 0x18);
    match &p.fields[11] {
        FieldValue::Meta(m) => {
            assert!(m.crouching);
            assert!(!m.on_fire);
            assert!(m.unknown.is_empty());
        },
        other => panic!("expected metadata, got {:?}", other),
    }
}

#[test]
fn decode_object_data_velocity_presence() {
    // SpawnObject with a zero object-data integer: no velocity shorts.
    let bytes = [
        0x17, 0, 0, 0, 8, 2, 0, 0, 0, 32, 0, 0, 8, 0, 0, 0, 0, 64, 0, 32, 0, 0, 0, 0,
    ];
    let (p, n) = decode_packet(&bytes).expect("decodes");
    assert_eq!(n, bytes.len());
    match &p.fields[7] {
        FieldValue::ObjData(o) => {
            assert_eq!(o.integer, 0);
            assert_eq!(o.dx, None);
        },
        other => panic!("expected object data, got {:?}", other),
    }
}

#[test]
fn structural_fields_are_not_encodable() {
    let p = Packet {
        id: 0x1d,
        fields: vec![FieldValue::I32Vec(vec![1])],
    };
    assert_eq!(encode_packet(&p), None);
}

#[test]
fn wrong_field_shape_is_not_encodable() {
    let p = Packet { id: 0x00, fields: vec![FieldValue::U8(1)] };
    assert_eq!(encode_packet(&p), None);
    let q = Packet { id: 0x00, fields: vec![] };
    assert_eq!(encode_packet(&q), None);
}

#[test]
fn decode_with_trailing_bytes_consumes_exactly_one_packet() {
    let p = Packet { id: 0xcd, fields: vec![FieldValue::U8(0)] };
    let mut bytes = encode_packet(&p).expect("encodable");
    let own_len = bytes.len();
    bytes.extend_from_slice(&[0xde, 0xad, 0xbe, 0xef]);
    let (q, n) = decode_packet(&bytes).expect("decodes");
    assert_eq!(n, own_len);
    assert_eq!(q, p);
}

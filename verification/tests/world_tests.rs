use mcproto::packet::{ChunkData, ChunkMetainfo, MultiBlockChangeData};
use mcproto::world::{World, WorldError};

/// Builds the uncompressed payload for one column with a single loaded
/// section, in the protocol's phase order: ids, metadata nibbles, light
/// nibbles, skylight nibbles, the add array for flagged sections, then
/// the biome array on ground-up updates.
fn build_payload(primary: u16, add: u16, skylight: bool, ground_up: bool) -> Vec<u8> {
    let n = primary.count_ones() as usize;
    let na = (primary & add).count_ones() as usize;
    let mut d = Vec::new();
    for s in 0..n {
        for i in 0..4096u32 {
            d.push(((i + s as u32) % 256) as u8); // block ids
        }
    }
    for _ in 0..n {
        d.extend(std::iter::repeat(0x21u8).take(2048)); // metadata 1, 2
    }
    for _ in 0..n {
        d.extend(std::iter::repeat(0x43u8).take(2048)); // light 3, 4
    }
    if skylight {
        for _ in 0..n {
            d.extend(std::iter::repeat(0x65u8).take(2048)); // skylight 5, 6
        }
    }
    for _ in 0..na {
        d.extend(std::iter::repeat(0x01u8).take(2048)); // add nibbles
    }
    if ground_up {
        d.extend(std::iter::repeat(9u8).take(256)); // biome
    }
    d
}

fn compress(d: &[u8]) -> Vec<u8> {
    miniz_oxide::deflate::compress_to_vec_zlib(d, 6)
}

#[test]
fn chunk_unpack_consumes_payload_exactly() {
    let payload = build_payload(0b1, 0, true, true);
    let mut w = World::new();
    let data = ChunkData {
        ground_up_continuous: true,
        compressed: compress(&payload),
        metainfo: ChunkMetainfo { x: 0, z: 0, primary: 0b1, add: 0 },
    };
    assert_eq!(w.set_chunk(data), Ok(()));

    // a payload one byte short of the declared phases is a fatal mismatch
    let mut short = build_payload(0b1, 0, true, true);
    short.pop();
    let mut w2 = World::new();
    let bad = ChunkData {
        ground_up_continuous: true,
        compressed: compress(&short),
        metainfo: ChunkMetainfo { x: 0, z: 0, primary: 0b1, add: 0 },
    };
    assert_eq!(w2.set_chunk(bad), Err(WorldError::SizeMismatch));

    // and one byte long likewise
    let mut long = build_payload(0b1, 0, true, true);
    long.push(0);
    let mut w3 = World::new();
    let bad2 = ChunkData {
        ground_up_continuous: true,
        compressed: compress(&long),
        metainfo: ChunkMetainfo { x: 0, z: 0, primary: 0b1, add: 0 },
    };
    assert_eq!(w3.set_chunk(bad2), Err(WorldError::SizeMismatch));
}

#[test]
fn unpacked_blocks_carry_all_fields() {
    let payload = build_payload(0b1, 0b1, true, true);
    let mut w = World::new();
    let data = ChunkData {
        ground_up_continuous: true,
        compressed: compress(&payload),
        metainfo: ChunkMetainfo { x: 0, z: 0, primary: 0b1, add: 0b1 },
    };
    assert_eq!(w.set_chunk(data), Ok(()));
    // block index 0 of section 0: id byte 0, add nibble 1 -> id 256
    let b = w.get_block((0, 0, 0));
    assert_eq!(b.id, 256);
    assert_eq!(b.metadata, 0x1); // low nibble of 0x21
    assert_eq!(b.light, 0x3);
    assert_eq!(b.skylit, 0x5);
    // block index 1: id byte 1, high nibbles
    let b1 = w.get_block((1, 0, 0));
    assert_eq!(b1.id, 1 | (0x0 << 8));
    assert_eq!(b1.metadata, 0x2);
    assert_eq!(b1.light, 0x4);
    assert_eq!(b1.skylit, 0x6);
    // an unloaded section answers air
    assert!(w.get_block((0, 200, 0)).is_air());
    // an unloaded column answers air
    assert!(w.get_block((500, 0, 500)).is_air());
    // below height zero answers air
    assert!(w.get_block((0, -1, 0)).is_air());
}

#[test]
fn garbage_zlib_is_a_decompress_failure() {
    let mut w = World::new();
    let data = ChunkData {
        ground_up_continuous: true,
        compressed: vec![1, 2, 3, 4, 5],
        metainfo: ChunkMetainfo { x: 0, z: 0, primary: 0, add: 0 },
    };
    assert_eq!(w.set_chunk(data), Err(WorldError::DecompressFailed));
}

#[test]
fn set_block_and_get_block_round_trip() {
    let mut w = World::new();
    w.set_block(5, 9, 64, 20, 3);
    let b = w.get_block((5, 64, 9));
    assert_eq!(b.id, 20);
    assert_eq!(b.metadata, 3);
    // a different position in the same column is untouched air
    assert!(w.get_block((5, 65, 9)).is_air());
}

#[test]
fn set_block_on_loaded_column_is_visible_and_isolated() {
    let mut w = World::new();
    // first write loads the column; the second lands in the same column
    w.set_block(5, 9, 64, 20, 3);
    w.set_block(5, 9, 65, 7, 1);
    let b = w.get_block((5, 65, 9));
    assert_eq!((b.id, b.metadata), (7, 1));
    // the earlier write in another cell of the same section is untouched
    let a = w.get_block((5, 64, 9));
    assert_eq!((a.id, a.metadata), (20, 3));
    // overwriting the same cell replaces it
    w.set_block(5, 9, 64, 2, 0);
    assert_eq!(w.get_block((5, 64, 9)).id, 2);
}

#[test]
fn set_block_floors_negative_coordinates() {
    let mut w = World::new();
    w.set_block(-1, -1, 70, 33, 0);
    assert_eq!(w.get_block((-1, 70, -1)).id, 33);
    // (-1, -1) lives in column (-1, -1), not (0, 0)
    assert!(w.get_block((15, 70, 15)).is_air());
}

#[test]
fn multi_block_change_applies_packed_records() {
    let mut w = World::new();
    // load the column first (the packet requires it to exist)
    w.set_block(0, 0, 0, 1, 0);
    // one record: x=3, z=5 packed in one byte; y=64; id 17, meta 2
    let a = (3u8 << 4) | 5;
    let b = 64u8;
    let c = (17u16 >> 4) as u8; // high 8 of the 12-bit id
    let d = (((17u16 & 0xf) as u8) << 4) | 2;
    let data = MultiBlockChangeData { x: 0, z: 0, record_count: 1, bytes: vec![a, b, c, d] };
    assert_eq!(w.set_block_multiple(&data), Ok(()));
    let blk = w.get_block((3, 64, 5));
    assert_eq!(blk.id, 17);
    assert_eq!(blk.metadata, 2);
}

#[test]
fn multi_block_change_errors() {
    let mut w = World::new();
    let data = MultiBlockChangeData { x: 7, z: 7, record_count: 1, bytes: vec![0, 0, 0, 0] };
    assert_eq!(w.set_block_multiple(&data), Err(WorldError::UnknownColumn));
    w.set_block(7 * 16, 7 * 16, 0, 1, 0);
    let short = MultiBlockChangeData { x: 7, z: 7, record_count: 2, bytes: vec![0, 0, 0, 0] };
    assert_eq!(w.set_block_multiple(&short), Err(WorldError::ShortRecordData));
}

#[test]
fn chunk_column_defaults() {
    let col = mcproto::world::ChunkColumn::new(3, -2);
    assert_eq!(col.x, 3);
    assert_eq!(col.z, -2);
    assert!(col.get_block((0, 0, 0)).is_air());
    let ch = mcproto::world::Chunk::empty(2);
    assert_eq!(ch.y, 2);
    assert_eq!(ch.blocks.len(), 4096);
    assert!(ch.blocks[0].is_air());
    let blk = mcproto::world::Block::new();
    assert!(blk.is_air());
}

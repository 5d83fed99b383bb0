//! The packet codec: the framing of every packet is one identifier byte and
//! then its fields in declaration order. The wire grammar is written down
//! once, as specification functions from byte sequences to values
//! (`sd_*`) and from values to byte sequences (`se_*`); the executable
//! decoder and encoder are proved to compute exactly those functions, and
//! the encodable fragment round-trips.

use vstd::prelude::*;

use crate::bytes::{be16, be16_bytes, be32, be32_bytes, be64, be64_bytes};
use crate::packet::{
    spec_layout, field_matches, packet_wf, BlockOffsetsView, ChunkBulkView, ChunkDataView,
    ChunkMetainfo, FieldType, FieldView, MetaView, MultiBlockView, ObjectData, PacketView,
    SlotView,
};

verus! {

/// Why decoding failed. `NeedMore` is the one recoverable case: the buffer
/// simply does not yet hold the whole packet. The others are fatal to the
/// session: the stream cannot be resynchronised.
#[derive(Debug, Clone, Copy, PartialEq, Eq, Structural)]
pub enum DecodeError {
    /// The buffered bytes end before the packet does.
    NeedMore,
    /// A single field would read at least one packet ceiling of bytes.
    Oversized,
    /// The leading identifier byte is not in the layout table.
    UnknownPacketId(u8),
    /// A self-describing field contradicts its own rules.
    Malformed,
}

/// One unsigned byte at `i`.
pub open spec fn sd_u8(d: Seq<u8>, i: int) -> Result<(u8, int), DecodeError> {
    if i + 1 <= d.len() {
        Ok((d[i], i + 1))
    } else {
        Err(DecodeError::NeedMore)
    }
}

/// A big-endian unsigned 16-bit integer at `i`.
pub open spec fn sd_u16(d: Seq<u8>, i: int) -> Result<(u16, int), DecodeError> {
    if i + 2 <= d.len() {
        Ok((be16(d[i], d[i + 1]), i + 2))
    } else {
        Err(DecodeError::NeedMore)
    }
}

/// A big-endian unsigned 32-bit integer at `i`.
pub open spec fn sd_u32(d: Seq<u8>, i: int) -> Result<(u32, int), DecodeError> {
    if i + 4 <= d.len() {
        Ok((be32(d[i], d[i + 1], d[i + 2], d[i + 3]), i + 4))
    } else {
        Err(DecodeError::NeedMore)
    }
}

/// A big-endian unsigned 64-bit integer at `i`.
pub open spec fn sd_u64(d: Seq<u8>, i: int) -> Result<(u64, int), DecodeError> {
    if i + 8 <= d.len() {
        Ok(
            (
                be64(d[i], d[i + 1], d[i + 2], d[i + 3], d[i + 4], d[i + 5], d[i + 6], d[i + 7]),
                i + 8,
            ),
        )
    } else {
        Err(DecodeError::NeedMore)
    }
}

/// `n` raw bytes at `i`. A request of a packet ceiling or more is refused
/// as oversized, mirroring the stream decoder's single-read limit.
pub open spec fn sd_take(d: Seq<u8>, i: int, n: int) -> Result<(Seq<u8>, int), DecodeError> {
    if n >= 65535 {
        Err(DecodeError::Oversized)
    } else if i + n > d.len() {
        Err(DecodeError::NeedMore)
    } else {
        Ok((d.subrange(i, i + n), i + n))
    }
}

/// The UTF-16 code units of a big-endian byte pairing.
pub open spec fn utf16_units(b: Seq<u8>) -> Seq<u16> {
    Seq::new(b.len() / 2, |j: int| be16(b[2 * j], b[2 * j + 1]))
}

/// A length-prefixed UTF-16BE string: a 16-bit code-unit count, then two
/// bytes per unit.
pub open spec fn sd_str(d: Seq<u8>, i: int) -> Result<(Seq<u16>, int), DecodeError> {
    match sd_u16(d, i) {
        Ok((len, i1)) => match sd_take(d, i1, 2 * (len as int)) {
            Ok((b, i2)) => Ok((utf16_units(b), i2)),
            Err(e) => Err(e),
        },
        Err(e) => Err(e),
    }
}

/// Length-prefixed binary tag data: a signed 16-bit count, where minus one
/// means the data is absent. Any other negative count reads as a huge
/// unsigned request and is oversized.
pub open spec fn sd_nbt(d: Seq<u8>, i: int) -> Result<(Option<Seq<u8>>, int), DecodeError> {
    match sd_u16(d, i) {
        Ok((raw, i1)) => {
            let len = raw as i16;
            if len == -1i16 {
                Ok((None, i1))
            } else if len < 0i16 {
                Err(DecodeError::Oversized)
            } else {
                match sd_take(d, i1, len as int) {
                    Ok((b, i2)) => Ok((Some(b), i2)),
                    Err(e) => Err(e),
                }
            }
        },
        Err(e) => Err(e),
    }
}

/// An item slot: id minus one is the empty slot; otherwise count, damage
/// and optional tag data follow.
pub open spec fn sd_slot(d: Seq<u8>, i: int) -> Result<(SlotView, int), DecodeError> {
    match sd_u16(d, i) {
        Ok((raw_id, i1)) => {
            let id = raw_id as i16;
            if id == -1i16 {
                Ok((SlotView::Empty, i1))
            } else {
                match sd_u8(d, i1) {
                    Ok((rc, i2)) => {
                        let count = rc as i8;
                        match sd_u16(d, i2) {
                            Ok((rd, i3)) => {
                                let damage = rd as i16;
                                match sd_nbt(d, i3) {
                                    Ok((None, i4)) => Ok(
                                        (SlotView::Item { id, count, damage }, i4),
                                    ),
                                    Ok((Some(b), i4)) => Ok(
                                        (SlotView::ItemNbt { id, count, damage, nbt: b }, i4),
                                    ),
                                    Err(e) => Err(e),
                                }
                            },
                            Err(e) => Err(e),
                        }
                    },
                    Err(e) => Err(e),
                }
            }
        },
        Err(e) => Err(e),
    }
}

/// The metadata value every decode starts from: all flags clear, no name,
/// no skipped entries.
pub open spec fn meta_empty() -> MetaView {
    MetaView {
        on_fire: false,
        crouching: false,
        riding: false,
        sprinting: false,
        acting: false,
        invisible: false,
        name: None,
        unknown: Seq::empty(),
    }
}

/// Entity metadata entries up to the sentinel byte. Entry zero must carry
/// the flag byte and entry five the name string; other entries are skipped
/// by the width their three type bits declare, with type seven unknown and
/// malformed.
pub open spec fn sd_meta(d: Seq<u8>, i: int, m: MetaView) -> Result<(MetaView, int), DecodeError>
    decreases d.len() - i,
{
    match sd_u8(d, i) {
        Ok((tag, i1)) => {
            if tag == 0x7f {
                Ok((m, i1))
            } else {
                let id = tag & 0x1f;
                let data_type = (tag & 0xe0) >> 5;
                if id == 0 {
                    if data_type != 0 {
                        Err(DecodeError::Malformed)
                    } else {
                        match sd_u8(d, i1) {
                            Ok((flags, i2) ) => sd_meta(
                                d,
                                i2,
                                MetaView {
                                    on_fire: flags & 0x01 != 0,
                                    crouching: flags & 0x02 != 0,
                                    riding: flags & 0x04 != 0,
                                    sprinting: flags & 0x08 != 0,
                                    acting: flags & 0x10 != 0,
                                    invisible: flags & 0x20 != 0,
                                    ..m
                                },
                            ),
                            Err(e) => Err(e),
                        }
                    }
                } else if id == 5 {
                    if data_type != 4 {
                        Err(DecodeError::Malformed)
                    } else {
                        match sd_str(d, i1) {
                            Ok((s, i2)) => sd_meta(d, i2, MetaView { name: Some(s), ..m }),
                            Err(e) => Err(e),
                        }
                    }
                } else {
                    let m1 = MetaView { unknown: m.unknown.push(id), ..m };
                    if data_type == 0 {
                        match sd_u8(d, i1) {
                            Ok((_, i2)) => sd_meta(d, i2, m1),
                            Err(e) => Err(e),
                        }
                    } else if data_type == 1 {
                        match sd_u16(d, i1) {
                            Ok((_, i2)) => sd_meta(d, i2, m1),
                            Err(e) => Err(e),
                        }
                    } else if data_type == 2 {
                        match sd_u32(d, i1) {
                            Ok((_, i2)) => sd_meta(d, i2, m1),
                            Err(e) => Err(e),
                        }
                    } else if data_type == 3 {
                        match sd_u32(d, i1) {
                            Ok((_, i2)) => sd_meta(d, i2, m1),
                            Err(e) => Err(e),
                        }
                    } else if data_type == 4 {
                        match sd_str(d, i1) {
                            Ok((_, i2)) => sd_meta(d, i2, m1),
                            Err(e) => Err(e),
                        }
                    } else if data_type == 5 {
                        match sd_slot(d, i1) {
                            Ok((_, i2)) => sd_meta(d, i2, m1),
                            Err(e) => Err(e),
                        }
                    } else if data_type == 6 {
                        match sd_take(d, i1, 12) {
                            Ok((_, i2)) => sd_meta(d, i2, m1),
                            Err(e) => Err(e),
                        }
                    } else {
                        Err(DecodeError::Malformed)
                    }
                }
            }
        },
        Err(e) => Err(e),
    }
}

/// Object spawn data: three velocity shorts exactly when the leading
/// integer is non-zero.
pub open spec fn sd_objdata(d: Seq<u8>, i: int) -> Result<(ObjectData, int), DecodeError> {
    match sd_u32(d, i) {
        Ok((raw, i1)) => {
            let integer = raw as i32;
            if integer != 0 {
                match sd_u16(d, i1) {
                    Ok((x, i2)) => match sd_u16(d, i2) {
                        Ok((y, i3)) => match sd_u16(d, i3) {
                            Ok((z, i4)) => Ok(
                                (
                                    ObjectData {
                                        integer,
                                        dx: Some(x as i16),
                                        dy: Some(y as i16),
                                        dz: Some(z as i16),
                                    },
                                    i4,
                                ),
                            ),
                            Err(e) => Err(e),
                        },
                        Err(e) => Err(e),
                    },
                    Err(e) => Err(e),
                }
            } else {
                Ok((ObjectData { integer, dx: None, dy: None, dz: None }, i1))
            }
        },
        Err(e) => Err(e),
    }
}

/// A signed 32-bit byte count: negative counts read as huge unsigned
/// requests and are oversized.
pub open spec fn sd_len32(d: Seq<u8>, i: int) -> Result<(int, int), DecodeError> {
    match sd_u32(d, i) {
        Ok((raw, i1)) => {
            let len = raw as i32;
            if len < 0 {
                Err(DecodeError::Oversized)
            } else {
                Ok((len as int, i1))
            }
        },
        Err(e) => Err(e),
    }
}

/// A single-column chunk update: coordinates, the ground-up flag, the two
/// section bitmasks, then the length-prefixed compressed payload.
pub open spec fn sd_chunk(d: Seq<u8>, i: int) -> Result<(ChunkDataView, int), DecodeError> {
    match sd_u32(d, i) {
        Ok((rx, i1)) => match sd_u32(d, i1) {
            Ok((rz, i2)) => match sd_u8(d, i2) {
                Ok((gb, i3)) => match sd_u16(d, i3) {
                    Ok((primary, i4)) => match sd_u16(d, i4) {
                        Ok((add, i5)) => match sd_len32(d, i5) {
                            Ok((len, i6)) => match sd_take(d, i6, len) {
                                Ok((b, i7)) => Ok(
                                    (
                                        ChunkDataView {
                                            ground_up_continuous: gb == 1,
                                            compressed: b,
                                            metainfo: ChunkMetainfo {
                                                x: rx as i32,
                                                z: rz as i32,
                                                primary,
                                                add,
                                            },
                                        },
                                        i7,
                                    ),
                                ),
                                Err(e) => Err(e),
                            },
                            Err(e) => Err(e),
                        },
                        Err(e) => Err(e),
                    },
                    Err(e) => Err(e),
                },
                Err(e) => Err(e),
            },
            Err(e) => Err(e),
        },
        Err(e) => Err(e),
    }
}

/// `count` per-column metadata records, appended to `acc`.
pub open spec fn sd_metainfos(d: Seq<u8>, i: int, count: int, acc: Seq<ChunkMetainfo>) -> Result<
    (Seq<ChunkMetainfo>, int),
    DecodeError,
>
    decreases count,
{
    if count <= 0 {
        Ok((acc, i))
    } else {
        match sd_u32(d, i) {
            Ok((rx, i1)) => match sd_u32(d, i1) {
                Ok((rz, i2)) => match sd_u16(d, i2) {
                    Ok((primary, i3)) => match sd_u16(d, i3) {
                        Ok((add, i4)) => sd_metainfos(
                            d,
                            i4,
                            count - 1,
                            acc.push(
                                ChunkMetainfo { x: rx as i32, z: rz as i32, primary, add },
                            ),
                        ),
                        Err(e) => Err(e),
                    },
                    Err(e) => Err(e),
                },
                Err(e) => Err(e),
            },
            Err(e) => Err(e),
        }
    }
}

/// A bulk chunk update: column count, payload length, skylight flag, the
/// compressed payload, then one metadata record per column.
pub open spec fn sd_chunkbulk(d: Seq<u8>, i: int) -> Result<(ChunkBulkView, int), DecodeError> {
    match sd_u16(d, i) {
        Ok((column_count, i1)) => match sd_len32(d, i1) {
            Ok((len, i2)) => match sd_u8(d, i2) {
                Ok((sky, i3)) => match sd_take(d, i3, len) {
                    Ok((b, i4)) => match sd_metainfos(d, i4, column_count as int, Seq::empty()) {
                        Ok((infos, i5)) => Ok(
                            (
                                ChunkBulkView {
                                    column_count,
                                    has_skylight: sky == 1,
                                    compressed: b,
                                    metainfo: infos,
                                },
                                i5,
                            ),
                        ),
                        Err(e) => Err(e),
                    },
                    Err(e) => Err(e),
                },
                Err(e) => Err(e),
            },
            Err(e) => Err(e),
        },
        Err(e) => Err(e),
    }
}

/// A multi-block change: column coordinates, record count, then the raw
/// length-prefixed record bytes.
pub open spec fn sd_multiblock(d: Seq<u8>, i: int) -> Result<(MultiBlockView, int), DecodeError> {
    match sd_u32(d, i) {
        Ok((rx, i1)) => match sd_u32(d, i1) {
            Ok((rz, i2)) => match sd_u16(d, i2) {
                Ok((record_count, i3)) => match sd_len32(d, i3) {
                    Ok((len, i4)) => match sd_take(d, i4, len) {
                        Ok((b, i5)) => Ok(
                            (
                                MultiBlockView {
                                    x: rx as i32,
                                    z: rz as i32,
                                    record_count,
                                    bytes: b,
                                },
                                i5,
                            ),
                        ),
                        Err(e) => Err(e),
                    },
                    Err(e) => Err(e),
                },
                Err(e) => Err(e),
            },
            Err(e) => Err(e),
        },
        Err(e) => Err(e),
    }
}

/// `count` three-byte block offsets, appended to `acc`.
pub open spec fn sd_offsets(d: Seq<u8>, i: int, count: int, acc: Seq<(i8, i8, i8)>) -> Result<
    (Seq<(i8, i8, i8)>, int),
    DecodeError,
>
    decreases count,
{
    if count <= 0 {
        Ok((acc, i))
    } else {
        match sd_u8(d, i) {
            Ok((a, i1)) => match sd_u8(d, i1) {
                Ok((b, i2)) => match sd_u8(d, i2) {
                    Ok((c, i3)) => sd_offsets(
                        d,
                        i3,
                        count - 1,
                        acc.push((a as i8, b as i8, c as i8)),
                    ),
                    Err(e) => Err(e),
                },
                Err(e) => Err(e),
            },
            Err(e) => Err(e),
        }
    }
}

/// Explosion records: a signed count of three-byte offsets (a negative
/// count yields none), then a velocity vector of three 32-bit patterns.
pub open spec fn sd_blockoffsets(d: Seq<u8>, i: int) -> Result<
    (BlockOffsetsView, int),
    DecodeError,
> {
    match sd_u32(d, i) {
        Ok((raw, i1)) => {
            let count = raw as i32;
            match sd_offsets(d, i1, count as int, Seq::empty()) {
                Ok((offs, i2)) => match sd_u32(d, i2) {
                    Ok((dx, i3)) => match sd_u32(d, i3) {
                        Ok((dy, i4)) => match sd_u32(d, i4) {
                            Ok((dz, i5)) => Ok(
                                (BlockOffsetsView { offsets: offs, dx, dy, dz }, i5),
                            ),
                            Err(e) => Err(e),
                        },
                        Err(e) => Err(e),
                    },
                    Err(e) => Err(e),
                },
                Err(e) => Err(e),
            }
        },
        Err(e) => Err(e),
    }
}

/// `count` item slots, appended to `acc`.
pub open spec fn sd_slots(d: Seq<u8>, i: int, count: int, acc: Seq<SlotView>) -> Result<
    (Seq<SlotView>, int),
    DecodeError,
>
    decreases count,
{
    if count <= 0 {
        Ok((acc, i))
    } else {
        match sd_slot(d, i) {
            Ok((s, i1)) => sd_slots(d, i1, count - 1, acc.push(s)),
            Err(e) => Err(e),
        }
    }
}

/// `count` signed 32-bit integers, appended to `acc`.
pub open spec fn sd_i32s(d: Seq<u8>, i: int, count: int, acc: Seq<i32>) -> Result<
    (Seq<i32>, int),
    DecodeError,
>
    decreases count,
{
    if count <= 0 {
        Ok((acc, i))
    } else {
        match sd_u32(d, i) {
            Ok((v, i1)) => sd_i32s(d, i1, count - 1, acc.push(v as i32)),
            Err(e) => Err(e),
        }
    }
}

/// `count` strings, appended to `acc`.
pub open spec fn sd_strs(d: Seq<u8>, i: int, count: int, acc: Seq<Seq<u16>>) -> Result<
    (Seq<Seq<u16>>, int),
    DecodeError,
>
    decreases count,
{
    if count <= 0 {
        Ok((acc, i))
    } else {
        match sd_str(d, i) {
            Ok((s, i1)) => sd_strs(d, i1, count - 1, acc.push(s)),
            Err(e) => Err(e),
        }
    }
}

/// One field of the given wire type at `i`.
pub open spec fn sd_field(t: FieldType, d: Seq<u8>, i: int) -> Result<
    (FieldView, int),
    DecodeError,
> {
    match t {
        FieldType::U8 => match sd_u8(d, i) {
            Ok((v, j)) => Ok((FieldView::U8(v), j)),
            Err(e) => Err(e),
        },
        FieldType::I8 => match sd_u8(d, i) {
            Ok((v, j)) => Ok((FieldView::I8(v as i8), j)),
            Err(e) => Err(e),
        },
        FieldType::Bool => match sd_u8(d, i) {
            Ok((v, j)) => Ok((FieldView::Bool(v == 1), j)),
            Err(e) => Err(e),
        },
        FieldType::U16 => match sd_u16(d, i) {
            Ok((v, j)) => Ok((FieldView::U16(v), j)),
            Err(e) => Err(e),
        },
        FieldType::I16 => match sd_u16(d, i) {
            Ok((v, j)) => Ok((FieldView::I16(v as i16), j)),
            Err(e) => Err(e),
        },
        FieldType::I32 => match sd_u32(d, i) {
            Ok((v, j)) => Ok((FieldView::I32(v as i32), j)),
            Err(e) => Err(e),
        },
        FieldType::I64 => match sd_u64(d, i) {
            Ok((v, j)) => Ok((FieldView::I64(v as i64), j)),
            Err(e) => Err(e),
        },
        FieldType::F32 => match sd_u32(d, i) {
            Ok((v, j)) => Ok((FieldView::F32(v), j)),
            Err(e) => Err(e),
        },
        FieldType::F64 => match sd_u64(d, i) {
            Ok((v, j)) => Ok((FieldView::F64(v), j)),
            Err(e) => Err(e),
        },
        FieldType::Str => match sd_str(d, i) {
            Ok((s, j)) => Ok((FieldView::Str(s), j)),
            Err(e) => Err(e),
        },
        FieldType::Blob => match sd_u16(d, i) {
            Ok((len, i1)) => match sd_take(d, i1, len as int) {
                Ok((b, j)) => Ok((FieldView::Blob(b), j)),
                Err(e) => Err(e),
            },
            Err(e) => Err(e),
        },
        FieldType::Nbt => match sd_nbt(d, i) {
            Ok((Some(b), j)) => Ok((FieldView::Nbt(b), j)),
            Ok((None, _)) => Err(DecodeError::Malformed),
            Err(e) => Err(e),
        },
        FieldType::SlotF => match sd_slot(d, i) {
            Ok((s, j)) => Ok((FieldView::SlotF(s), j)),
            Err(e) => Err(e),
        },
        FieldType::Meta => match sd_meta(d, i, meta_empty()) {
            Ok((m, j)) => Ok((FieldView::Meta(m), j)),
            Err(e) => Err(e),
        },
        FieldType::ObjData => match sd_objdata(d, i) {
            Ok((o, j)) => Ok((FieldView::ObjData(o), j)),
            Err(e) => Err(e),
        },
        FieldType::ChunkBlob => match sd_chunk(d, i) {
            Ok((c, j)) => Ok((FieldView::ChunkBlob(c), j)),
            Err(e) => Err(e),
        },
        FieldType::ChunkBulkBlob => match sd_chunkbulk(d, i) {
            Ok((c, j)) => Ok((FieldView::ChunkBulkBlob(c), j)),
            Err(e) => Err(e),
        },
        FieldType::MultiBlock => match sd_multiblock(d, i) {
            Ok((c, j)) => Ok((FieldView::MultiBlock(c), j)),
            Err(e) => Err(e),
        },
        FieldType::BlockOffsets => match sd_blockoffsets(d, i) {
            Ok((c, j)) => Ok((FieldView::BlockOffsets(c), j)),
            Err(e) => Err(e),
        },
        FieldType::SlotVec => match sd_u16(d, i) {
            Ok((count, i1)) => match sd_slots(d, i1, count as int, Seq::empty()) {
                Ok((ss, j)) => Ok((FieldView::SlotVec(ss), j)),
                Err(e) => Err(e),
            },
            Err(e) => Err(e),
        },
        FieldType::I32Vec => match sd_u8(d, i) {
            Ok((count, i1)) => match sd_i32s(d, i1, count as int, Seq::empty()) {
                Ok((vs, j)) => Ok((FieldView::I32Vec(vs), j)),
                Err(e) => Err(e),
            },
            Err(e) => Err(e),
        },
        FieldType::StrVec => match sd_u8(d, i) {
            Ok((count, i1)) => match sd_strs(d, i1, count as int, Seq::empty()) {
                Ok((ss, j)) => Ok((FieldView::StrVec(ss), j)),
                Err(e) => Err(e),
            },
            Err(e) => Err(e),
        },
    }
}

/// The remaining fields of a layout, appended to `acc`.
pub open spec fn sd_fields(l: Seq<FieldType>, d: Seq<u8>, i: int, acc: Seq<FieldView>) -> Result<
    (Seq<FieldView>, int),
    DecodeError,
>
    decreases l.len(),
{
    if l.len() == 0 {
        Ok((acc, i))
    } else {
        match sd_field(l[0], d, i) {
            Ok((v, i1)) => sd_fields(l.skip(1), d, i1, acc.push(v)),
            Err(e) => Err(e),
        }
    }
}

/// A whole packet from the front of `d`: the identifier byte, then the
/// fields its layout prescribes. An identifier outside the table is a
/// fatal, unrecoverable protocol error.
pub open spec fn spec_decode_packet(d: Seq<u8>) -> Result<(PacketView, int), DecodeError> {
    match sd_u8(d, 0) {
        Ok((id, i1)) => match spec_layout(id) {
            Some(l) => match sd_fields(l, d, i1, Seq::empty()) {
                Ok((fs, j)) => Ok((PacketView { id, fields: fs }, j)),
                Err(e) => Err(e),
            },
            None => Err(DecodeError::UnknownPacketId(id)),
        },
        Err(e) => Err(e),
    }
}

/// The big-endian bytes of a sequence of UTF-16 code units.
pub open spec fn utf16_bytes(s: Seq<u16>) -> Seq<u8> {
    Seq::new(2 * s.len(), |j: int| if j % 2 == 0 {
        (s[j / 2] >> 8) as u8
    } else {
        s[j / 2] as u8
    })
}

/// Whether a slot value is on the outbound (encodable) fragment: a present
/// item may not use the empty sentinel as its id, and tag data must fit
/// its signed 16-bit length prefix.
pub open spec fn slot_encodable(s: SlotView) -> bool {
    match s {
        SlotView::Empty => true,
        SlotView::Item { id, .. } => id != -1i16,
        SlotView::ItemNbt { id, nbt, .. } => id != -1i16 && nbt.len() <= 32767,
    }
}

/// Whether a field value is on the outbound fragment. Structural
/// server-to-client fields (chunks, metadata, object data, the vectors)
/// are decode-only: the client never re-encodes them.
pub open spec fn field_encodable(v: FieldView) -> bool {
    match v {
        FieldView::U8(_) => true,
        FieldView::I8(_) => true,
        FieldView::Bool(_) => true,
        FieldView::U16(_) => true,
        FieldView::I16(_) => true,
        FieldView::I32(_) => true,
        FieldView::I64(_) => true,
        FieldView::F32(_) => true,
        FieldView::F64(_) => true,
        FieldView::Str(s) => s.len() <= 32767,
        FieldView::Blob(b) => b.len() <= 65534,
        FieldView::SlotF(s) => slot_encodable(s),
        _ => false,
    }
}

/// The wire bytes of one slot.
pub open spec fn se_slot(s: SlotView) -> Seq<u8> {
    match s {
        SlotView::Empty => be16_bytes(0xffff),
        SlotView::Item { id, count, damage } => be16_bytes(id as u16) + seq![count as u8]
            + be16_bytes(damage as u16) + be16_bytes(0xffff),
        SlotView::ItemNbt { id, count, damage, nbt } => be16_bytes(id as u16) + seq![count as u8]
            + be16_bytes(damage as u16) + be16_bytes(nbt.len() as u16) + nbt,
    }
}

/// The wire bytes of one encodable field.
pub open spec fn se_field(v: FieldView) -> Seq<u8> {
    match v {
        FieldView::U8(b) => seq![b],
        FieldView::I8(b) => seq![b as u8],
        FieldView::Bool(b) => seq![if b { 1u8 } else { 0u8 }],
        FieldView::U16(x) => be16_bytes(x),
        FieldView::I16(x) => be16_bytes(x as u16),
        FieldView::I32(x) => be32_bytes(x as u32),
        FieldView::I64(x) => be64_bytes(x as u64),
        FieldView::F32(x) => be32_bytes(x),
        FieldView::F64(x) => be64_bytes(x),
        FieldView::Str(s) => be16_bytes(s.len() as u16) + utf16_bytes(s),
        FieldView::Blob(b) => be16_bytes(b.len() as u16) + b,
        FieldView::SlotF(s) => se_slot(s),
        _ => Seq::empty(),
    }
}

/// The wire bytes of a field sequence.
pub open spec fn se_fields(fs: Seq<FieldView>) -> Seq<u8>
    decreases fs.len(),
{
    if fs.len() == 0 {
        Seq::empty()
    } else {
        se_field(fs[0]) + se_fields(fs.skip(1))
    }
}

/// Whether a whole packet is on the outbound fragment.
pub open spec fn packet_encodable(p: PacketView) -> bool {
    packet_wf(p) && (forall|i: int|
        0 <= i < p.fields.len() ==> field_encodable(#[trigger] p.fields[i]))
}

/// The wire bytes of a whole packet.
pub open spec fn se_packet(p: PacketView) -> Seq<u8> {
    seq![p.id] + se_fields(p.fields)
}

} // verus!

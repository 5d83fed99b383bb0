//! The executable packet decoder. Every function here computes exactly the
//! corresponding `sd_*` specification function of the wire grammar.

use vstd::prelude::*;

use crate::bytes::be16;
use crate::codec::{
    meta_empty, sd_blockoffsets, sd_chunk, sd_chunkbulk, sd_field, sd_fields, sd_i32s, sd_len32,
    sd_meta, sd_metainfos, sd_multiblock, sd_nbt, sd_objdata, sd_offsets, sd_slot, sd_slots,
    sd_str, sd_strs, sd_take, sd_u16, sd_u32, sd_u64, sd_u8, spec_decode_packet, utf16_units,
    DecodeError,
};
use crate::nbt::NbtData;
use crate::packet::{
    field_matches, layout, packet_wf, spec_layout, ChunkData, ChunkDataBulk, ChunkMetainfo,
    FieldType, FieldValue, Metadata, MultiBlockChangeData, BlockOffsetRecords, ObjectData, Packet,
    Slot,
};

verus! {

fn dec_u8(d: &[u8], i: usize) -> (r: Result<(u8, usize), DecodeError>)
    requires
        i <= d@.len(),
    ensures
        match r {
            Ok((v, j)) => sd_u8(d@, i as int) == Ok::<(u8, int), DecodeError>((v, j as int)) && i
                < j <= d@.len(),
            Err(e) => sd_u8(d@, i as int) == Err::<(u8, int), DecodeError>(e),
        },
{
    if i < d.len() {
        Ok((d[i], i + 1))
    } else {
        Err(DecodeError::NeedMore)
    }
}

fn dec_u16(d: &[u8], i: usize) -> (r: Result<(u16, usize), DecodeError>)
    requires
        i <= d@.len(),
    ensures
        match r {
            Ok((v, j)) => sd_u16(d@, i as int) == Ok::<(u16, int), DecodeError>((v, j as int)) && i
                < j <= d@.len(),
            Err(e) => sd_u16(d@, i as int) == Err::<(u16, int), DecodeError>(e),
        },
{
    if d.len() - i >= 2 {
        Ok(((d[i] as u16) << 8 | (d[i + 1] as u16), i + 2))
    } else {
        Err(DecodeError::NeedMore)
    }
}

fn dec_u32(d: &[u8], i: usize) -> (r: Result<(u32, usize), DecodeError>)
    requires
        i <= d@.len(),
    ensures
        match r {
            Ok((v, j)) => sd_u32(d@, i as int) == Ok::<(u32, int), DecodeError>((v, j as int)) && i
                < j <= d@.len(),
            Err(e) => sd_u32(d@, i as int) == Err::<(u32, int), DecodeError>(e),
        },
{
    if d.len() - i >= 4 {
        Ok(
            (
                (d[i] as u32) << 24 | (d[i + 1] as u32) << 16 | (d[i + 2] as u32) << 8 | (d[i + 3]
                    as u32),
                i + 4,
            ),
        )
    } else {
        Err(DecodeError::NeedMore)
    }
}

fn dec_u64(d: &[u8], i: usize) -> (r: Result<(u64, usize), DecodeError>)
    requires
        i <= d@.len(),
    ensures
        match r {
            Ok((v, j)) => sd_u64(d@, i as int) == Ok::<(u64, int), DecodeError>((v, j as int)) && i
                < j <= d@.len(),
            Err(e) => sd_u64(d@, i as int) == Err::<(u64, int), DecodeError>(e),
        },
{
    if d.len() - i >= 8 {
        Ok(
            (
                (d[i] as u64) << 56 | (d[i + 1] as u64) << 48 | (d[i + 2] as u64) << 40 | (d[i + 3]
                    as u64) << 32 | (d[i + 4] as u64) << 24 | (d[i + 5] as u64) << 16 | (d[i + 6]
                    as u64) << 8 | (d[i + 7] as u64),
                i + 8,
            ),
        )
    } else {
        Err(DecodeError::NeedMore)
    }
}

fn dec_take(d: &[u8], i: usize, n: usize) -> (r: Result<(Vec<u8>, usize), DecodeError>)
    requires
        i <= d@.len(),
    ensures
        match r {
            Ok((v, j)) => sd_take(d@, i as int, n as int) == Ok::<(Seq<u8>, int), DecodeError>(
                (v@, j as int),
            ) && i <= j <= d@.len() && v@.len() == n,
            Err(e) => sd_take(d@, i as int, n as int) == Err::<(Seq<u8>, int), DecodeError>(e),
        },
{
    if n >= 65535 {
        return Err(DecodeError::Oversized);
    }
    let dn: usize = d.len();
    if dn - i < n {
        return Err(DecodeError::NeedMore);
    }
    let mut out: Vec<u8> = Vec::new();
    let mut k: usize = 0;
    proof {
        assert(out@ =~= d@.subrange(i as int, i as int));
    }
    while k < n
        invariant
            dn == d@.len(),
            i + n <= dn,
            k <= n,
            out@ == d@.subrange(i as int, i + k),
        decreases n - k,
    {
        out.push(d[i + k]);
        proof {
            assert(out@ =~= d@.subrange(i as int, i + k + 1));
        }
        k += 1;
    }
    Ok((out, i + n))
}

fn dec_str(d: &[u8], i: usize) -> (r: Result<(Vec<u16>, usize), DecodeError>)
    requires
        i <= d@.len(),
    ensures
        match r {
            Ok((v, j)) => sd_str(d@, i as int) == Ok::<(Seq<u16>, int), DecodeError>(
                (v@, j as int),
            ) && i < j <= d@.len(),
            Err(e) => sd_str(d@, i as int) == Err::<(Seq<u16>, int), DecodeError>(e),
        },
{
    let (len, i1) = match dec_u16(d, i) {
        Ok(v) => v,
        Err(e) => { return Err(e); },
    };
    let nb: usize = (len as usize) * 2;
    let (b, i2) = match dec_take(d, i1, nb) {
        Ok(v) => v,
        Err(e) => { return Err(e); },
    };
    let mut units: Vec<u16> = Vec::new();
    let count = len as usize;
    let mut k: usize = 0;
    while k < count
        invariant
            count <= 65535,
            b@.len() == 2 * count,
            k <= count,
            units@.len() == k,
            forall|j: int| 0 <= j < k ==> units@[j] == be16(b@[2 * j], b@[2 * j + 1]),
        decreases count - k,
    {
        units.push((b[2 * k] as u16) << 8 | (b[2 * k + 1] as u16));
        k += 1;
    }
    proof {
        assert(units@ =~= utf16_units(b@));
    }
    Ok((units, i2))
}

fn dec_nbt(d: &[u8], i: usize) -> (r: Result<(Option<Vec<u8>>, usize), DecodeError>)
    requires
        i <= d@.len(),
    ensures
        match r {
            Ok((v, j)) => sd_nbt(d@, i as int) == Ok::<(Option<Seq<u8>>, int), DecodeError>(
                (
                    match v {
                        Some(b) => Some(b@),
                        None => None,
                    },
                    j as int,
                ),
            ) && i < j <= d@.len(),
            Err(e) => sd_nbt(d@, i as int) == Err::<(Option<Seq<u8>>, int), DecodeError>(e),
        },
{
    let (raw, i1) = match dec_u16(d, i) {
        Ok(v) => v,
        Err(e) => { return Err(e); },
    };
    let len = raw as i16;
    if len == -1i16 {
        return Ok((None, i1));
    }
    if len < 0i16 {
        return Err(DecodeError::Oversized);
    }
    match dec_take(d, i1, len as usize) {
        Ok((b, i2)) => Ok((Some(b), i2)),
        Err(e) => Err(e),
    }
}

fn dec_slot(d: &[u8], i: usize) -> (r: Result<(Slot, usize), DecodeError>)
    requires
        i <= d@.len(),
    ensures
        match r {
            Ok((v, j)) => sd_slot(d@, i as int) == Ok::<(crate::packet::SlotView, int), DecodeError>(
                (v@, j as int),
            ) && i < j <= d@.len(),
            Err(e) => sd_slot(d@, i as int) == Err::<(crate::packet::SlotView, int), DecodeError>(
                e,
            ),
        },
{
    let (raw_id, i1) = match dec_u16(d, i) {
        Ok(v) => v,
        Err(e) => { return Err(e); },
    };
    let id = raw_id as i16;
    if id == -1i16 {
        return Ok((Slot::Empty, i1));
    }
    let (rc, i2) = match dec_u8(d, i1) {
        Ok(v) => v,
        Err(e) => { return Err(e); },
    };
    let count = rc as i8;
    let (rd, i3) = match dec_u16(d, i2) {
        Ok(v) => v,
        Err(e) => { return Err(e); },
    };
    let damage = rd as i16;
    match dec_nbt(d, i3) {
        Ok((None, i4)) => Ok((Slot::Item { id, count, damage }, i4)),
        Ok((Some(b), i4)) => Ok(
            (Slot::ItemNbt { id, count, damage, nbt: NbtData::from_bytes(b.as_slice()) }, i4),
        ),
        Err(e) => Err(e),
    }
}

fn dec_meta(d: &[u8], i: usize) -> (r: Result<(Metadata, usize), DecodeError>)
    requires
        i <= d@.len(),
    ensures
        match r {
            Ok((v, j)) => sd_meta(d@, i as int, meta_empty()) == Ok::<
                (crate::packet::MetaView, int),
                DecodeError,
            >((v@, j as int)) && i < j <= d@.len(),
            Err(e) => sd_meta(d@, i as int, meta_empty()) == Err::<
                (crate::packet::MetaView, int),
                DecodeError,
            >(e),
        },
{
    let mut m = Metadata {
        on_fire: false,
        crouching: false,
        riding: false,
        sprinting: false,
        acting: false,
        invisible: false,
        name: None,
        unknown: Vec::new(),
    };
    let mut pos = i;
    proof {
        assert(m@ =~= meta_empty());
    }
    loop
        invariant
            i <= pos <= d@.len(),
            i < pos || pos == i,
            sd_meta(d@, i as int, meta_empty()) == sd_meta(d@, pos as int, m@),
            pos > i || m@ == meta_empty(),
        decreases d@.len() - pos,
    {
        let (tag, i1) = match dec_u8(d, pos) {
            Ok(v) => v,
            Err(e) => { return Err(e); },
        };
        if tag == 0x7f {
            return Ok((m, i1));
        }
        let id = tag & 0x1f;
        let data_type = (tag & 0xe0) >> 5;
        if id == 0 {
            if data_type != 0 {
                return Err(DecodeError::Malformed);
            }
            let (flags, i2) = match dec_u8(d, i1) {
                Ok(v) => v,
                Err(e) => { return Err(e); },
            };
            m.on_fire = flags & 0x01 != 0;
            m.crouching = flags & 0x02 != 0;
            m.riding = flags & 0x04 != 0;
            m.sprinting = flags & 0x08 != 0;
            m.acting = flags & 0x10 != 0;
            m.invisible = flags & 0x20 != 0;
            pos = i2;
        } else if id == 5 {
            if data_type != 4 {
                return Err(DecodeError::Malformed);
            }
            let (s, i2) = match dec_str(d, i1) {
                Ok(v) => v,
                Err(e) => { return Err(e); },
            };
            m.name = Some(s);
            pos = i2;
        } else {
            m.unknown.push(id);
            if data_type == 0 {
                let (_v, i2) = match dec_u8(d, i1) {
                    Ok(v) => v,
                    Err(e) => { return Err(e); },
                };
                pos = i2;
            } else if data_type == 1 {
                let (_v, i2) = match dec_u16(d, i1) {
                    Ok(v) => v,
                    Err(e) => { return Err(e); },
                };
                pos = i2;
            } else if data_type == 2 {
                let (_v, i2) = match dec_u32(d, i1) {
                    Ok(v) => v,
                    Err(e) => { return Err(e); },
                };
                pos = i2;
            } else if data_type == 3 {
                let (_v, i2) = match dec_u32(d, i1) {
                    Ok(v) => v,
                    Err(e) => { return Err(e); },
                };
                pos = i2;
            } else if data_type == 4 {
                let (_v, i2) = match dec_str(d, i1) {
                    Ok(v) => v,
                    Err(e) => { return Err(e); },
                };
                pos = i2;
            } else if data_type == 5 {
                let (_v, i2) = match dec_slot(d, i1) {
                    Ok(v) => v,
                    Err(e) => { return Err(e); },
                };
                pos = i2;
            } else if data_type == 6 {
                let (_v, i2) = match dec_take(d, i1, 12) {
                    Ok(v) => v,
                    Err(e) => { return Err(e); },
                };
                pos = i2;
            } else {
                return Err(DecodeError::Malformed);
            }
        }
    }
}

fn dec_objdata(d: &[u8], i: usize) -> (r: Result<(ObjectData, usize), DecodeError>)
    requires
        i <= d@.len(),
    ensures
        match r {
            Ok((v, j)) => sd_objdata(d@, i as int) == Ok::<(ObjectData, int), DecodeError>(
                (v, j as int),
            ) && i < j <= d@.len(),
            Err(e) => sd_objdata(d@, i as int) == Err::<(ObjectData, int), DecodeError>(e),
        },
{
    let (raw, i1) = match dec_u32(d, i) {
        Ok(v) => v,
        Err(e) => { return Err(e); },
    };
    let integer = raw as i32;
    if integer == 0 {
        return Ok((ObjectData { integer, dx: None, dy: None, dz: None }, i1));
    }
    let (x, i2) = match dec_u16(d, i1) {
        Ok(v) => v,
        Err(e) => { return Err(e); },
    };
    let (y, i3) = match dec_u16(d, i2) {
        Ok(v) => v,
        Err(e) => { return Err(e); },
    };
    let (z, i4) = match dec_u16(d, i3) {
        Ok(v) => v,
        Err(e) => { return Err(e); },
    };
    Ok(
        (
            ObjectData {
                integer,
                dx: Some(x as i16),
                dy: Some(y as i16),
                dz: Some(z as i16),
            },
            i4,
        ),
    )
}

fn dec_len32(d: &[u8], i: usize) -> (r: Result<(usize, usize), DecodeError>)
    requires
        i <= d@.len(),
    ensures
        match r {
            Ok((v, j)) => sd_len32(d@, i as int) == Ok::<(int, int), DecodeError>(
                (v as int, j as int),
            ) && i < j <= d@.len(),
            Err(e) => sd_len32(d@, i as int) == Err::<(int, int), DecodeError>(e),
        },
{
    let (raw, i1) = match dec_u32(d, i) {
        Ok(v) => v,
        Err(e) => { return Err(e); },
    };
    let len = raw as i32;
    if len < 0 {
        return Err(DecodeError::Oversized);
    }
    Ok((len as usize, i1))
}

fn dec_chunk(d: &[u8], i: usize) -> (r: Result<(ChunkData, usize), DecodeError>)
    requires
        i <= d@.len(),
    ensures
        match r {
            Ok((v, j)) => sd_chunk(d@, i as int) == Ok::<
                (crate::packet::ChunkDataView, int),
                DecodeError,
            >((v@, j as int)) && i < j <= d@.len(),
            Err(e) => sd_chunk(d@, i as int) == Err::<
                (crate::packet::ChunkDataView, int),
                DecodeError,
            >(e),
        },
{
    let (rx, i1) = match dec_u32(d, i) {
        Ok(v) => v,
        Err(e) => { return Err(e); },
    };
    let (rz, i2) = match dec_u32(d, i1) {
        Ok(v) => v,
        Err(e) => { return Err(e); },
    };
    let (gb, i3) = match dec_u8(d, i2) {
        Ok(v) => v,
        Err(e) => { return Err(e); },
    };
    let (primary, i4) = match dec_u16(d, i3) {
        Ok(v) => v,
        Err(e) => { return Err(e); },
    };
    let (add, i5) = match dec_u16(d, i4) {
        Ok(v) => v,
        Err(e) => { return Err(e); },
    };
    let (len, i6) = match dec_len32(d, i5) {
        Ok(v) => v,
        Err(e) => { return Err(e); },
    };
    let (b, i7) = match dec_take(d, i6, len) {
        Ok(v) => v,
        Err(e) => { return Err(e); },
    };
    Ok(
        (
            ChunkData {
                ground_up_continuous: gb == 1,
                compressed: b,
                metainfo: ChunkMetainfo { x: rx as i32, z: rz as i32, primary, add },
            },
            i7,
        ),
    )
}

fn dec_metainfos(d: &[u8], i: usize, count: u16) -> (r: Result<
    (Vec<ChunkMetainfo>, usize),
    DecodeError,
>)
    requires
        i <= d@.len(),
    ensures
        match r {
            Ok((v, j)) => sd_metainfos(d@, i as int, count as int, Seq::empty()) == Ok::<
                (Seq<ChunkMetainfo>, int),
                DecodeError,
            >((v@, j as int)) && i <= j <= d@.len(),
            Err(e) => sd_metainfos(d@, i as int, count as int, Seq::empty()) == Err::<
                (Seq<ChunkMetainfo>, int),
                DecodeError,
            >(e),
        },
{
    let mut acc: Vec<ChunkMetainfo> = Vec::new();
    let mut pos = i;
    let mut k: u16 = 0;
    proof {
        assert(acc@ =~= Seq::<ChunkMetainfo>::empty());
    }
    while k < count
        invariant
            i <= pos <= d@.len(),
            k <= count,
            sd_metainfos(d@, i as int, count as int, Seq::empty()) == sd_metainfos(
                d@,
                pos as int,
                count - k,
                acc@,
            ),
        decreases count - k,
    {
        let (rx, i1) = match dec_u32(d, pos) {
            Ok(v) => v,
            Err(e) => { return Err(e); },
        };
        let (rz, i2) = match dec_u32(d, i1) {
            Ok(v) => v,
            Err(e) => { return Err(e); },
        };
        let (primary, i3) = match dec_u16(d, i2) {
            Ok(v) => v,
            Err(e) => { return Err(e); },
        };
        let (add, i4) = match dec_u16(d, i3) {
            Ok(v) => v,
            Err(e) => { return Err(e); },
        };
        acc.push(ChunkMetainfo { x: rx as i32, z: rz as i32, primary, add });
        pos = i4;
        k += 1;
    }
    Ok((acc, pos))
}

fn dec_chunkbulk(d: &[u8], i: usize) -> (r: Result<(ChunkDataBulk, usize), DecodeError>)
    requires
        i <= d@.len(),
    ensures
        match r {
            Ok((v, j)) => sd_chunkbulk(d@, i as int) == Ok::<
                (crate::packet::ChunkBulkView, int),
                DecodeError,
            >((v@, j as int)) && i < j <= d@.len(),
            Err(e) => sd_chunkbulk(d@, i as int) == Err::<
                (crate::packet::ChunkBulkView, int),
                DecodeError,
            >(e),
        },
{
    let (column_count, i1) = match dec_u16(d, i) {
        Ok(v) => v,
        Err(e) => { return Err(e); },
    };
    let (len, i2) = match dec_len32(d, i1) {
        Ok(v) => v,
        Err(e) => { return Err(e); },
    };
    let (sky, i3) = match dec_u8(d, i2) {
        Ok(v) => v,
        Err(e) => { return Err(e); },
    };
    let (b, i4) = match dec_take(d, i3, len) {
        Ok(v) => v,
        Err(e) => { return Err(e); },
    };
    let (infos, i5) = match dec_metainfos(d, i4, column_count) {
        Ok(v) => v,
        Err(e) => { return Err(e); },
    };
    Ok(
        (
            ChunkDataBulk { column_count, has_skylight: sky == 1, compressed: b, metainfo: infos },
            i5,
        ),
    )
}

fn dec_multiblock(d: &[u8], i: usize) -> (r: Result<(MultiBlockChangeData, usize), DecodeError>)
    requires
        i <= d@.len(),
    ensures
        match r {
            Ok((v, j)) => sd_multiblock(d@, i as int) == Ok::<
                (crate::packet::MultiBlockView, int),
                DecodeError,
            >((v@, j as int)) && i < j <= d@.len(),
            Err(e) => sd_multiblock(d@, i as int) == Err::<
                (crate::packet::MultiBlockView, int),
                DecodeError,
            >(e),
        },
{
    let (rx, i1) = match dec_u32(d, i) {
        Ok(v) => v,
        Err(e) => { return Err(e); },
    };
    let (rz, i2) = match dec_u32(d, i1) {
        Ok(v) => v,
        Err(e) => { return Err(e); },
    };
    let (record_count, i3) = match dec_u16(d, i2) {
        Ok(v) => v,
        Err(e) => { return Err(e); },
    };
    let (len, i4) = match dec_len32(d, i3) {
        Ok(v) => v,
        Err(e) => { return Err(e); },
    };
    let (b, i5) = match dec_take(d, i4, len) {
        Ok(v) => v,
        Err(e) => { return Err(e); },
    };
    Ok((MultiBlockChangeData { x: rx as i32, z: rz as i32, record_count, bytes: b }, i5))
}

#[verifier::loop_isolation(false)]
fn dec_blockoffsets(d: &[u8], i: usize) -> (r: Result<(BlockOffsetRecords, usize), DecodeError>)
    requires
        i <= d@.len(),
    ensures
        match r {
            Ok((v, j)) => sd_blockoffsets(d@, i as int) == Ok::<
                (crate::packet::BlockOffsetsView, int),
                DecodeError,
            >((v@, j as int)) && i < j <= d@.len(),
            Err(e) => sd_blockoffsets(d@, i as int) == Err::<
                (crate::packet::BlockOffsetsView, int),
                DecodeError,
            >(e),
        },
{
    let (raw, i1) = match dec_u32(d, i) {
        Ok(v) => v,
        Err(e) => { return Err(e); },
    };
    let count = raw as i32;
    let mut offs: Vec<(i8, i8, i8)> = Vec::new();
    let mut pos = i1;
    let mut k: i32 = 0;
    if count < 0 {
        proof {
            assert(sd_offsets(d@, i1 as int, count as int, Seq::<(i8, i8, i8)>::empty())
                == Ok::<(Seq<(i8, i8, i8)>, int), DecodeError>((offs@, i1 as int)));
        }
    }
    while k < count
        invariant
            i < pos <= d@.len(),
            count >= 0 ==> 0 <= k <= count,
            count < 0 ==> k == 0,
            sd_offsets(d@, i1 as int, count as int, Seq::empty()) == sd_offsets(
                d@,
                pos as int,
                count - k,
                offs@,
            ),
        decreases count - k,
    {
        let (a, j1) = match dec_u8(d, pos) {
            Ok(v) => v,
            Err(e) => { return Err(e); },
        };
        let (b, j2) = match dec_u8(d, j1) {
            Ok(v) => v,
            Err(e) => { return Err(e); },
        };
        let (c, j3) = match dec_u8(d, j2) {
            Ok(v) => v,
            Err(e) => { return Err(e); },
        };
        offs.push((a as i8, b as i8, c as i8));
        pos = j3;
        k += 1;
    }
    let (dx, i2) = match dec_u32(d, pos) {
        Ok(v) => v,
        Err(e) => { return Err(e); },
    };
    let (dy, i3) = match dec_u32(d, i2) {
        Ok(v) => v,
        Err(e) => { return Err(e); },
    };
    let (dz, i4) = match dec_u32(d, i3) {
        Ok(v) => v,
        Err(e) => { return Err(e); },
    };
    Ok((BlockOffsetRecords { offsets: offs, dx, dy, dz }, i4))
}

fn dec_slots(d: &[u8], i: usize, count: u16) -> (r: Result<(Vec<Slot>, usize), DecodeError>)
    requires
        i <= d@.len(),
    ensures
        match r {
            Ok((v, j)) => sd_slots(d@, i as int, count as int, Seq::empty()) == Ok::<
                (Seq<crate::packet::SlotView>, int),
                DecodeError,
            >((Seq::new(v@.len(), |q: int| v@[q]@), j as int)) && i <= j <= d@.len(),
            Err(e) => sd_slots(d@, i as int, count as int, Seq::empty()) == Err::<
                (Seq<crate::packet::SlotView>, int),
                DecodeError,
            >(e),
        },
{
    let mut acc: Vec<Slot> = Vec::new();
    let mut pos = i;
    let mut k: u16 = 0;
    proof {
        assert(Seq::new(acc@.len(), |q: int| acc@[q]@) =~= Seq::<
            crate::packet::SlotView,
        >::empty());
    }
    while k < count
        invariant
            i <= pos <= d@.len(),
            k <= count,
            sd_slots(d@, i as int, count as int, Seq::empty()) == sd_slots(
                d@,
                pos as int,
                count - k,
                Seq::new(acc@.len(), |q: int| acc@[q]@),
            ),
        decreases count - k,
    {
        let (s, i1) = match dec_slot(d, pos) {
            Ok(v) => v,
            Err(e) => { return Err(e); },
        };
        proof {
            assert(Seq::new(acc@.len(), |q: int| acc@[q]@).push(s@) =~= Seq::new(
                acc@.len() + 1,
                |q: int| acc@.push(s)[q]@,
            ));
        }
        acc.push(s);
        pos = i1;
        k += 1;
    }
    Ok((acc, pos))
}

fn dec_i32s(d: &[u8], i: usize, count: u8) -> (r: Result<(Vec<i32>, usize), DecodeError>)
    requires
        i <= d@.len(),
    ensures
        match r {
            Ok((v, j)) => sd_i32s(d@, i as int, count as int, Seq::empty()) == Ok::<
                (Seq<i32>, int),
                DecodeError,
            >((v@, j as int)) && i <= j <= d@.len(),
            Err(e) => sd_i32s(d@, i as int, count as int, Seq::empty()) == Err::<
                (Seq<i32>, int),
                DecodeError,
            >(e),
        },
{
    let mut acc: Vec<i32> = Vec::new();
    let mut pos = i;
    let mut k: u8 = 0;
    proof {
        assert(acc@ =~= Seq::<i32>::empty());
    }
    while k < count
        invariant
            i <= pos <= d@.len(),
            k <= count,
            sd_i32s(d@, i as int, count as int, Seq::empty()) == sd_i32s(
                d@,
                pos as int,
                count - k,
                acc@,
            ),
        decreases count - k,
    {
        let (raw, i1) = match dec_u32(d, pos) {
            Ok(v) => v,
            Err(e) => { return Err(e); },
        };
        acc.push(raw as i32);
        pos = i1;
        k += 1;
    }
    Ok((acc, pos))
}

fn dec_strs(d: &[u8], i: usize, count: u8) -> (r: Result<(Vec<Vec<u16>>, usize), DecodeError>)
    requires
        i <= d@.len(),
    ensures
        match r {
            Ok((v, j)) => sd_strs(d@, i as int, count as int, Seq::empty()) == Ok::<
                (Seq<Seq<u16>>, int),
                DecodeError,
            >((Seq::new(v@.len(), |q: int| v@[q]@), j as int)) && i <= j <= d@.len(),
            Err(e) => sd_strs(d@, i as int, count as int, Seq::empty()) == Err::<
                (Seq<Seq<u16>>, int),
                DecodeError,
            >(e),
        },
{
    let mut acc: Vec<Vec<u16>> = Vec::new();
    let mut pos = i;
    let mut k: u8 = 0;
    proof {
        assert(Seq::new(acc@.len(), |q: int| acc@[q]@) =~= Seq::<Seq<u16>>::empty());
    }
    while k < count
        invariant
            i <= pos <= d@.len(),
            k <= count,
            sd_strs(d@, i as int, count as int, Seq::empty()) == sd_strs(
                d@,
                pos as int,
                count - k,
                Seq::new(acc@.len(), |q: int| acc@[q]@),
            ),
        decreases count - k,
    {
        let (s, i1) = match dec_str(d, pos) {
            Ok(v) => v,
            Err(e) => { return Err(e); },
        };
        proof {
            assert(Seq::new(acc@.len(), |q: int| acc@[q]@).push(s@) =~= Seq::new(
                acc@.len() + 1,
                |q: int| acc@.push(s)[q]@,
            ));
        }
        acc.push(s);
        pos = i1;
        k += 1;
    }
    Ok((acc, pos))
}

/// Decodes one field of the given wire type.
fn dec_field(t: FieldType, d: &[u8], i: usize) -> (r: Result<(FieldValue, usize), DecodeError>)
    requires
        i <= d@.len(),
    ensures
        match r {
            Ok((v, j)) => sd_field(t, d@, i as int) == Ok::<
                (crate::packet::FieldView, int),
                DecodeError,
            >((v@, j as int)) && i <= j <= d@.len() && field_matches(v@, t),
            Err(e) => sd_field(t, d@, i as int) == Err::<
                (crate::packet::FieldView, int),
                DecodeError,
            >(e),
        },
{
    match t {
        FieldType::U8 => match dec_u8(d, i) {
            Ok((v, j)) => Ok((FieldValue::U8(v), j)),
            Err(e) => Err(e),
        },
        FieldType::I8 => match dec_u8(d, i) {
            Ok((v, j)) => Ok((FieldValue::I8(v as i8), j)),
            Err(e) => Err(e),
        },
        FieldType::Bool => match dec_u8(d, i) {
            Ok((v, j)) => Ok((FieldValue::Bool(v == 1), j)),
            Err(e) => Err(e),
        },
        FieldType::U16 => match dec_u16(d, i) {
            Ok((v, j)) => Ok((FieldValue::U16(v), j)),
            Err(e) => Err(e),
        },
        FieldType::I16 => match dec_u16(d, i) {
            Ok((v, j)) => Ok((FieldValue::I16(v as i16), j)),
            Err(e) => Err(e),
        },
        FieldType::I32 => match dec_u32(d, i) {
            Ok((v, j)) => Ok((FieldValue::I32(v as i32), j)),
            Err(e) => Err(e),
        },
        FieldType::I64 => match dec_u64(d, i) {
            Ok((v, j)) => Ok((FieldValue::I64(v as i64), j)),
            Err(e) => Err(e),
        },
        FieldType::F32 => match dec_u32(d, i) {
            Ok((v, j)) => Ok((FieldValue::F32(v), j)),
            Err(e) => Err(e),
        },
        FieldType::F64 => match dec_u64(d, i) {
            Ok((v, j)) => Ok((FieldValue::F64(v), j)),
            Err(e) => Err(e),
        },
        FieldType::Str => match dec_str(d, i) {
            Ok((v, j)) => Ok((FieldValue::Str(v), j)),
            Err(e) => Err(e),
        },
        FieldType::Blob => match dec_u16(d, i) {
            Ok((len, i1)) => match dec_take(d, i1, len as usize) {
                Ok((b, j)) => Ok((FieldValue::Blob(b), j)),
                Err(e) => Err(e),
            },
            Err(e) => Err(e),
        },
        FieldType::Nbt => match dec_nbt(d, i) {
            Ok((Some(b), j)) => Ok((FieldValue::Nbt(NbtData::from_bytes(b.as_slice())), j)),
            Ok((None, _)) => Err(DecodeError::Malformed),
            Err(e) => Err(e),
        },
        FieldType::SlotF => match dec_slot(d, i) {
            Ok((v, j)) => Ok((FieldValue::SlotF(v), j)),
            Err(e) => Err(e),
        },
        FieldType::Meta => match dec_meta(d, i) {
            Ok((v, j)) => Ok((FieldValue::Meta(v), j)),
            Err(e) => Err(e),
        },
        FieldType::ObjData => match dec_objdata(d, i) {
            Ok((v, j)) => Ok((FieldValue::ObjData(v), j)),
            Err(e) => Err(e),
        },
        FieldType::ChunkBlob => match dec_chunk(d, i) {
            Ok((v, j)) => Ok((FieldValue::ChunkBlob(v), j)),
            Err(e) => Err(e),
        },
        FieldType::ChunkBulkBlob => match dec_chunkbulk(d, i) {
            Ok((v, j)) => Ok((FieldValue::ChunkBulkBlob(v), j)),
            Err(e) => Err(e),
        },
        FieldType::MultiBlock => match dec_multiblock(d, i) {
            Ok((v, j)) => Ok((FieldValue::MultiBlock(v), j)),
            Err(e) => Err(e),
        },
        FieldType::BlockOffsets => match dec_blockoffsets(d, i) {
            Ok((v, j)) => Ok((FieldValue::BlockOffsets(v), j)),
            Err(e) => Err(e),
        },
        FieldType::SlotVec => match dec_u16(d, i) {
            Ok((count, i1)) => match dec_slots(d, i1, count) {
                Ok((v, j)) => Ok((FieldValue::SlotVec(v), j)),
                Err(e) => Err(e),
            },
            Err(e) => Err(e),
        },
        FieldType::I32Vec => match dec_u8(d, i) {
            Ok((count, i1)) => match dec_i32s(d, i1, count) {
                Ok((v, j)) => Ok((FieldValue::I32Vec(v), j)),
                Err(e) => Err(e),
            },
            Err(e) => Err(e),
        },
        FieldType::StrVec => match dec_u8(d, i) {
            Ok((count, i1)) => match dec_strs(d, i1, count) {
                Ok((v, j)) => Ok((FieldValue::StrVec(v), j)),
                Err(e) => Err(e),
            },
            Err(e) => Err(e),
        },
    }
}

/// Decodes one whole packet from the front of `d`, returning it with the
/// number of bytes it occupied. The result is exactly what the wire
/// grammar prescribes for these bytes: an unknown leading identifier is
/// fatal, and a buffer that ends early asks for more bytes.
#[verifier::loop_isolation(false)]
pub fn decode_packet(d: &[u8]) -> (r: Result<(Packet, usize), DecodeError>)
    ensures
        match r {
            Ok((p, n)) => spec_decode_packet(d@) == Ok::<(crate::packet::PacketView, int), DecodeError>(
                (p@, n as int),
            ) && packet_wf(p@) && 0 < n <= d@.len(),
            Err(e) => spec_decode_packet(d@) == Err::<
                (crate::packet::PacketView, int),
                DecodeError,
            >(e),
        },
{
    let (id, i1) = match dec_u8(d, 0) {
        Ok(v) => v,
        Err(e) => { return Err(e); },
    };
    let l = match layout(id) {
        Some(l) => l,
        None => { return Err(DecodeError::UnknownPacketId(id)); },
    };
    let mut fields: Vec<FieldValue> = Vec::new();
    let mut pos = i1;
    let mut k: usize = 0;
    let count = l.len();
    proof {
        assert(Seq::new(fields@.len(), |q: int| fields@[q]@) =~= Seq::<
            crate::packet::FieldView,
        >::empty());
        assert(l@.skip(0) =~= l@);
    }
    while k < count
        invariant
            count == l@.len(),
            spec_layout(id) == Some(l@),
            0 < pos <= d@.len(),
            k <= count,
            fields@.len() == k,
            forall|q: int| 0 <= q < k ==> field_matches(#[trigger] fields@[q]@, l@[q]),
            sd_fields(l@, d@, i1 as int, Seq::empty()) == sd_fields(
                l@.skip(k as int),
                d@,
                pos as int,
                Seq::new(fields@.len(), |q: int| fields@[q]@),
            ),
        decreases count - k,
    {
        let t = l[k];
        let (v, j) = match dec_field(t, d, pos) {
            Ok(v) => v,
            Err(e) => { return Err(e); },
        };
        proof {
            assert(l@.skip(k as int)[0] == l@[k as int]);
            assert(l@.skip(k as int).skip(1) =~= l@.skip(k + 1));
            assert(Seq::new(fields@.len(), |q: int| fields@[q]@).push(v@) =~= Seq::new(
                fields@.len() + 1,
                |q: int| fields@.push(v)[q]@,
            ));
        }
        fields.push(v);
        pos = j;
        k += 1;
    }
    proof {
        assert(l@.skip(count as int) =~= Seq::<FieldType>::empty());
    }
    let p = Packet { id, fields };
    Ok((p, pos))
}

} // verus!

//! The executable packet encoder for the outbound fragment of the
//! protocol: everything the client sends. It produces exactly the bytes of
//! the `se_*` specification functions, and refuses (by returning `None`)
//! any packet outside the encodable fragment — a structural decode-only
//! field, or a length that does not fit its prefix.

use vstd::prelude::*;

use crate::bytes::{be16_bytes, be32_bytes, be64_bytes};
use crate::codec::{
    field_encodable, packet_encodable, se_field, se_fields, se_packet, se_slot, slot_encodable,
    utf16_bytes,
};
use crate::packet::{field_matches, layout, FieldType, FieldValue, Packet, Slot};

verus! {

fn enc_u8(out: &mut Vec<u8>, v: u8)
    ensures
        final(out)@ == old(out)@ + seq![v],
{
    out.push(v);
    proof {
        assert(out@ =~= old(out)@ + seq![v]);
    }
}

fn enc_u16(out: &mut Vec<u8>, v: u16)
    ensures
        final(out)@ == old(out)@ + be16_bytes(v),
{
    out.push((v >> 8) as u8);
    out.push(v as u8);
    proof {
        assert(out@ =~= old(out)@ + be16_bytes(v));
    }
}

fn enc_u32(out: &mut Vec<u8>, v: u32)
    ensures
        final(out)@ == old(out)@ + be32_bytes(v),
{
    out.push((v >> 24) as u8);
    out.push((v >> 16) as u8);
    out.push((v >> 8) as u8);
    out.push(v as u8);
    proof {
        assert(out@ =~= old(out)@ + be32_bytes(v));
    }
}

fn enc_u64(out: &mut Vec<u8>, v: u64)
    ensures
        final(out)@ == old(out)@ + be64_bytes(v),
{
    out.push((v >> 56) as u8);
    out.push((v >> 48) as u8);
    out.push((v >> 40) as u8);
    out.push((v >> 32) as u8);
    out.push((v >> 24) as u8);
    out.push((v >> 16) as u8);
    out.push((v >> 8) as u8);
    out.push(v as u8);
    proof {
        assert(out@ =~= old(out)@ + be64_bytes(v));
    }
}

fn enc_utf16(out: &mut Vec<u8>, s: &Vec<u16>)
    ensures
        final(out)@ == old(out)@ + utf16_bytes(s@),
{
    let n = s.len();
    let mut k: usize = 0;
    proof {
        assert(out@ =~= old(out)@ + utf16_bytes(s@.take(0)));
    }
    while k < n
        invariant
            n == s@.len(),
            k <= n,
            out@ == old(out)@ + utf16_bytes(s@.take(k as int)),
        decreases n - k,
    {
        let v = s[k];
        out.push((v >> 8) as u8);
        out.push(v as u8);
        proof {
            assert(out@ =~= old(out)@ + utf16_bytes(s@.take(k + 1)));
        }
        k += 1;
    }
    proof {
        assert(s@.take(n as int) =~= s@);
    }
}

fn enc_bytes(out: &mut Vec<u8>, b: &Vec<u8>)
    ensures
        final(out)@ == old(out)@ + b@,
{
    let n = b.len();
    let mut k: usize = 0;
    proof {
        assert(out@ =~= old(out)@ + b@.take(0));
    }
    while k < n
        invariant
            n == b@.len(),
            k <= n,
            out@ == old(out)@ + b@.take(k as int),
        decreases n - k,
    {
        out.push(b[k]);
        proof {
            assert(out@ =~= old(out)@ + b@.take(k + 1));
        }
        k += 1;
    }
    proof {
        assert(b@.take(n as int) =~= b@);
    }
}

fn enc_slot(out: &mut Vec<u8>, s: &Slot) -> (ok: bool)
    ensures
        ok == slot_encodable(s@),
        ok ==> final(out)@ == old(out)@ + se_slot(s@),
        !ok ==> final(out)@ == old(out)@,
{
    match s {
        Slot::Empty => {
            enc_u16(out, 0xffff);
            true
        },
        Slot::Item { id, count, damage } => {
            if *id == -1i16 {
                return false;
            }
            enc_u16(out, *id as u16);
            enc_u8(out, *count as u8);
            enc_u16(out, *damage as u16);
            enc_u16(out, 0xffff);
            proof {
                assert(out@ =~= old(out)@ + se_slot(s@));
            }
            true
        },
        Slot::ItemNbt { id, count, damage, nbt } => {
            if *id == -1i16 {
                return false;
            }
            let nbt_bytes = nbt.to_bytes();
            if nbt_bytes.len() > 32767 {
                return false;
            }
            enc_u16(out, *id as u16);
            enc_u8(out, *count as u8);
            enc_u16(out, *damage as u16);
            enc_u16(out, nbt_bytes.len() as u16);
            enc_bytes(out, &nbt_bytes);
            proof {
                assert(out@ =~= old(out)@ + se_slot(s@));
            }
            true
        },
    }
}

/// Appends the wire bytes of one field; refuses values outside the
/// outbound fragment and leaves the buffer untouched for them.
fn enc_field(out: &mut Vec<u8>, v: &FieldValue) -> (ok: bool)
    ensures
        ok == field_encodable(v@),
        ok ==> final(out)@ == old(out)@ + se_field(v@),
        !ok ==> final(out)@ == old(out)@,
{
    match v {
        FieldValue::U8(b) => {
            enc_u8(out, *b);
            true
        },
        FieldValue::I8(b) => {
            enc_u8(out, *b as u8);
            true
        },
        FieldValue::Bool(b) => {
            enc_u8(out, if *b { 1 } else { 0 });
            true
        },
        FieldValue::U16(x) => {
            enc_u16(out, *x);
            true
        },
        FieldValue::I16(x) => {
            enc_u16(out, *x as u16);
            true
        },
        FieldValue::I32(x) => {
            enc_u32(out, *x as u32);
            true
        },
        FieldValue::I64(x) => {
            enc_u64(out, *x as u64);
            true
        },
        FieldValue::F32(x) => {
            enc_u32(out, *x);
            true
        },
        FieldValue::F64(x) => {
            enc_u64(out, *x);
            true
        },
        FieldValue::Str(s) => {
            if s.len() > 32767 {
                return false;
            }
            enc_u16(out, s.len() as u16);
            enc_utf16(out, s);
            proof {
                assert(out@ =~= old(out)@ + se_field(v@));
            }
            true
        },
        FieldValue::Blob(b) => {
            if b.len() > 65534 {
                return false;
            }
            enc_u16(out, b.len() as u16);
            enc_bytes(out, b);
            proof {
                assert(out@ =~= old(out)@ + se_field(v@));
            }
            true
        },
        FieldValue::SlotF(s) => enc_slot(out, s),
        _ => false,
    }
}

/// Whether a field value has the given wire type.
fn field_has_type(v: &FieldValue, t: FieldType) -> (r: bool)
    ensures
        r == field_matches(v@, t),
{
    match (v, t) {
        (FieldValue::U8(_), FieldType::U8) => true,
        (FieldValue::I8(_), FieldType::I8) => true,
        (FieldValue::Bool(_), FieldType::Bool) => true,
        (FieldValue::U16(_), FieldType::U16) => true,
        (FieldValue::I16(_), FieldType::I16) => true,
        (FieldValue::I32(_), FieldType::I32) => true,
        (FieldValue::I64(_), FieldType::I64) => true,
        (FieldValue::F32(_), FieldType::F32) => true,
        (FieldValue::F64(_), FieldType::F64) => true,
        (FieldValue::Str(_), FieldType::Str) => true,
        (FieldValue::Blob(_), FieldType::Blob) => true,
        (FieldValue::Nbt(_), FieldType::Nbt) => true,
        (FieldValue::SlotF(_), FieldType::SlotF) => true,
        (FieldValue::Meta(_), FieldType::Meta) => true,
        (FieldValue::ObjData(_), FieldType::ObjData) => true,
        (FieldValue::ChunkBlob(_), FieldType::ChunkBlob) => true,
        (FieldValue::ChunkBulkBlob(_), FieldType::ChunkBulkBlob) => true,
        (FieldValue::MultiBlock(_), FieldType::MultiBlock) => true,
        (FieldValue::BlockOffsets(_), FieldType::BlockOffsets) => true,
        (FieldValue::SlotVec(_), FieldType::SlotVec) => true,
        (FieldValue::I32Vec(_), FieldType::I32Vec) => true,
        (FieldValue::StrVec(_), FieldType::StrVec) => true,
        _ => false,
    }
}

/// One encoded field more: the bytes of a field-sequence prefix one longer
/// are the bytes so far plus the bytes of the next field.
pub proof fn lemma_se_fields_snoc(fs: Seq<crate::packet::FieldView>, k: int)
    requires
        0 <= k < fs.len(),
    ensures
        se_fields(fs.take(k + 1)) == se_fields(fs.take(k)) + se_field(fs[k]),
    decreases k,
{
    if k == 0 {
        assert(fs.take(1).skip(1) =~= Seq::<crate::packet::FieldView>::empty());
        assert(fs.take(0) =~= Seq::<crate::packet::FieldView>::empty());
        assert(fs.take(1)[0] == fs[0]);
        assert(fs.take(1).len() == 1);
        assert(se_fields(fs.take(1)) == se_field(fs[0]) + se_fields(
            Seq::<crate::packet::FieldView>::empty(),
        ));
        assert(se_fields(Seq::<crate::packet::FieldView>::empty()) == Seq::<u8>::empty());
        assert(se_fields(fs.take(1)) =~= se_fields(fs.take(0)) + se_field(fs[0]));
    } else {
        lemma_se_fields_snoc(fs.skip(1), k - 1);
        assert(fs.take(k + 1).skip(1) =~= fs.skip(1).take(k));
        assert(fs.take(k).skip(1) =~= fs.skip(1).take(k - 1));
        assert(fs.take(k + 1)[0] == fs[0]);
        assert(fs.take(k)[0] == fs[0]);
        assert(fs.skip(1)[k - 1] == fs[k]);
        assert(se_field(fs[0]) + (se_fields(fs.skip(1).take(k - 1)) + se_field(fs[k]))
            =~= (se_field(fs[0]) + se_fields(fs.skip(1).take(k - 1))) + se_field(fs[k]));
    }
}

/// Serializes a whole packet: the identifier byte, then each field. The
/// result is exactly the wire grammar's byte sequence; a packet with an
/// unknown identifier, a field list that does not match the identifier's
/// layout, or a field outside the outbound fragment is refused.
pub fn encode_packet(p: &Packet) -> (r: Option<Vec<u8>>)
    ensures
        r is Some <==> packet_encodable(p@),
        r matches Some(v) ==> v@ == se_packet(p@),
{
    let l = match layout(p.id) {
        Some(l) => l,
        None => { return None; },
    };
    if p.fields.len() != l.len() {
        return None;
    }
    let mut out: Vec<u8> = Vec::new();
    out.push(p.id);
    let count = l.len();
    let mut k: usize = 0;
    proof {
        assert(p@.fields.take(0) =~= Seq::<crate::packet::FieldView>::empty());
        assert(out@ =~= seq![p.id] + se_fields(p@.fields.take(0)));
    }
    while k < count
        invariant
            count == l@.len(),
            crate::packet::spec_layout(p.id) == Some(l@),
            p.fields@.len() == count,
            p@.fields.len() == count,
            k <= count,
            forall|q: int| 0 <= q < count ==> p@.fields[q] == p.fields@[q]@,
            forall|q: int| 0 <= q < k ==> field_matches(#[trigger] p@.fields[q], l@[q]),
            forall|q: int| 0 <= q < k ==> field_encodable(#[trigger] p@.fields[q]),
            out@ == seq![p.id] + se_fields(p@.fields.take(k as int)),
        decreases count - k,
    {
        let t = l[k];
        let f = &p.fields[k];
        if !field_has_type(f, t) {
            proof {
                assert(p@.fields[k as int] == p.fields@[k as int]@);
                assert(!field_matches(p@.fields[k as int], l@[k as int]));
                assert(!crate::packet::packet_wf(p@));
            }
            return None;
        }
        if !enc_field(&mut out, f) {
            proof {
                assert(p@.fields[k as int] == p.fields@[k as int]@);
                assert(!field_encodable(p@.fields[k as int]));
            }
            return None;
        }
        proof {
            lemma_se_fields_snoc(p@.fields, k as int);
            assert((seq![p.id] + se_fields(p@.fields.take(k as int))) + se_field(p@.fields[k as int])
                =~= seq![p.id] + se_fields(p@.fields.take(k + 1)));
        }
        k += 1;
    }
    proof {
        assert(p@.fields.take(count as int) =~= p@.fields);
        assert(out@ =~= se_packet(p@));
    }
    Some(out)
}

} // verus!

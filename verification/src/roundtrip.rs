//! The codec round-trip law: decoding the encoding of any packet on the
//! outbound fragment gives the packet back, byte count and all, even with
//! arbitrary further stream bytes behind it.

use vstd::prelude::*;

use crate::bytes::{
    be16, be16_bytes, be32_bytes, be64_bytes, lemma_be16_round_trip, lemma_be32_round_trip,
    lemma_be64_round_trip,
};
use crate::codec::{
    field_encodable, packet_encodable, sd_field, sd_fields, sd_nbt, sd_slot, sd_str, sd_take,
    sd_u16, sd_u32, sd_u64, sd_u8, se_field, se_fields, se_packet, se_slot, slot_encodable,
    spec_decode_packet, utf16_bytes, utf16_units, DecodeError,
};
use crate::packet::{
    field_matches, packet_wf, spec_layout, FieldType, FieldView, PacketView, SlotView,
};

verus! {

/// `d` holds the byte sequence `s` starting at `i`.
pub open spec fn contains_at(d: Seq<u8>, i: int, s: Seq<u8>) -> bool {
    0 <= i && i + s.len() <= d.len() && d.subrange(i, i + s.len()) == s
}

/// A sequence held at `i` splits into its two halves, held consecutively.
proof fn lemma_contains_split(d: Seq<u8>, i: int, s1: Seq<u8>, s2: Seq<u8>)
    requires
        contains_at(d, i, s1 + s2),
    ensures
        contains_at(d, i, s1),
        contains_at(d, i + s1.len(), s2),
{
    assert(d.subrange(i, i + s1.len()) =~= s1) by {
        assert forall|j: int| 0 <= j < s1.len() implies d.subrange(i, i + s1.len())[j] == s1[j] by {
            assert(d.subrange(i, i + (s1 + s2).len())[j] == (s1 + s2)[j]);
        }
    }
    assert(d.subrange(i + s1.len(), i + s1.len() + s2.len()) =~= s2) by {
        assert forall|j: int| 0 <= j < s2.len() implies d.subrange(
            i + s1.len(),
            i + s1.len() + s2.len(),
        )[j] == s2[j] by {
            assert(d.subrange(i, i + (s1 + s2).len())[s1.len() + j] == (s1 + s2)[s1.len() + j]);
        }
    }
}

proof fn lemma_rt_u8(d: Seq<u8>, i: int, v: u8)
    requires
        contains_at(d, i, seq![v]),
    ensures
        sd_u8(d, i) == Ok::<(u8, int), DecodeError>((v, i + 1)),
{
    assert(d.subrange(i, i + 1)[0] == d[i]);
}

proof fn lemma_rt_u16(d: Seq<u8>, i: int, v: u16)
    requires
        contains_at(d, i, be16_bytes(v)),
    ensures
        sd_u16(d, i) == Ok::<(u16, int), DecodeError>((v, i + 2)),
{
    assert(d.subrange(i, i + 2)[0] == d[i]);
    assert(d.subrange(i, i + 2)[1] == d[i + 1]);
    lemma_be16_round_trip(v);
}

proof fn lemma_rt_u32(d: Seq<u8>, i: int, v: u32)
    requires
        contains_at(d, i, be32_bytes(v)),
    ensures
        sd_u32(d, i) == Ok::<(u32, int), DecodeError>((v, i + 4)),
{
    assert forall|j: int| 0 <= j < 4 implies d[i + j] == be32_bytes(v)[j] by {
        assert(d.subrange(i, i + 4)[j] == d[i + j]);
    }
    lemma_be32_round_trip(v);
}

proof fn lemma_rt_u64(d: Seq<u8>, i: int, v: u64)
    requires
        contains_at(d, i, be64_bytes(v)),
    ensures
        sd_u64(d, i) == Ok::<(u64, int), DecodeError>((v, i + 8)),
{
    assert forall|j: int| 0 <= j < 8 implies d[i + j] == be64_bytes(v)[j] by {
        assert(d.subrange(i, i + 8)[j] == d[i + j]);
    }
    lemma_be64_round_trip(v);
}

proof fn lemma_rt_take(d: Seq<u8>, i: int, s: Seq<u8>)
    requires
        contains_at(d, i, s),
        s.len() < 65535,
    ensures
        sd_take(d, i, s.len() as int) == Ok::<(Seq<u8>, int), DecodeError>((s, i + s.len())),
{
}

/// Reading back the bytes of a code-unit sequence gives the units again.
proof fn lemma_rt_utf16(s: Seq<u16>)
    ensures
        utf16_bytes(s).len() == 2 * s.len(),
        utf16_units(utf16_bytes(s)) == s,
{
    let b = utf16_bytes(s);
    assert forall|j: int| 0 <= j < s.len() implies utf16_units(b)[j] == s[j] by {
        assert(b[2 * j] == (s[j] >> 8) as u8);
        assert(b[2 * j + 1] == s[j] as u8);
        lemma_be16_round_trip(s[j]);
        assert(be16_bytes(s[j])[0] == (s[j] >> 8) as u8);
        assert(be16_bytes(s[j])[1] == s[j] as u8);
    }
    assert(utf16_units(b) =~= s);
}

proof fn lemma_rt_str(d: Seq<u8>, i: int, s: Seq<u16>)
    requires
        s.len() <= 32767,
        contains_at(d, i, be16_bytes(s.len() as u16) + utf16_bytes(s)),
    ensures
        sd_str(d, i) == Ok::<(Seq<u16>, int), DecodeError>((s, i + 2 + 2 * s.len())),
{
    lemma_rt_utf16(s);
    lemma_contains_split(d, i, be16_bytes(s.len() as u16), utf16_bytes(s));
    lemma_rt_u16(d, i, s.len() as u16);
    lemma_rt_take(d, i + 2, utf16_bytes(s));
}

proof fn lemma_rt_nbt_absent(d: Seq<u8>, i: int)
    requires
        contains_at(d, i, be16_bytes(0xffff)),
    ensures
        sd_nbt(d, i) == Ok::<(Option<Seq<u8>>, int), DecodeError>((None, i + 2)),
{
    lemma_rt_u16(d, i, 0xffff);
    assert(0xffffu16 as i16 == -1i16) by (bit_vector);
}

proof fn lemma_rt_nbt_present(d: Seq<u8>, i: int, b: Seq<u8>)
    requires
        b.len() <= 32767,
        contains_at(d, i, be16_bytes(b.len() as u16) + b),
    ensures
        sd_nbt(d, i) == Ok::<(Option<Seq<u8>>, int), DecodeError>((Some(b), i + 2 + b.len())),
{
    lemma_contains_split(d, i, be16_bytes(b.len() as u16), b);
    lemma_rt_u16(d, i, b.len() as u16);
    let raw = b.len() as u16;
    assert(raw <= 32767);
    assert(raw <= 32767 ==> raw as i16 >= 0i16 && raw as i16 == raw as int) by (bit_vector);
    lemma_rt_take(d, i + 2, b);
}

proof fn lemma_i16_cast(v: i16)
    ensures
        (v as u16) as i16 == v,
        (v as u16) as int == if v >= 0 {
            v as int
        } else {
            v as int + 0x10000
        },
{
    assert((v as u16) as i16 == v) by (bit_vector);
    assert(v >= 0 ==> (v as u16) as int == v as int) by (bit_vector);
    assert(v < 0 ==> (v as u16) as int == v as int + 0x10000) by (bit_vector);
}

proof fn lemma_rt_slot(d: Seq<u8>, i: int, s: SlotView)
    requires
        slot_encodable(s),
        contains_at(d, i, se_slot(s)),
    ensures
        sd_slot(d, i) == Ok::<(SlotView, int), DecodeError>((s, i + se_slot(s).len())),
{
    match s {
        SlotView::Empty => {
            lemma_rt_u16(d, i, 0xffff);
            assert(0xffffu16 as i16 == -1i16) by (bit_vector);
        },
        SlotView::Item { id, count, damage } => {
            let p1 = be16_bytes(id as u16);
            let p2 = seq![count as u8];
            let p3 = be16_bytes(damage as u16);
            let p4 = be16_bytes(0xffffu16);
            assert(se_slot(s) =~= p1 + (p2 + (p3 + p4))) by {
                assert(se_slot(s) == ((p1 + p2) + p3) + p4);
            }
            lemma_contains_split(d, i, p1, p2 + (p3 + p4));
            lemma_contains_split(d, i + 2, p2, p3 + p4);
            lemma_contains_split(d, i + 3, p3, p4);
            lemma_rt_u16(d, i, id as u16);
            lemma_i16_cast(id);
            lemma_rt_u8(d, i + 2, count as u8);
            assert((count as u8) as i8 == count) by (bit_vector);
            lemma_rt_u16(d, i + 3, damage as u16);
            lemma_i16_cast(damage);
            lemma_rt_nbt_absent(d, i + 5);
        },
        SlotView::ItemNbt { id, count, damage, nbt } => {
            let p1 = be16_bytes(id as u16);
            let p2 = seq![count as u8];
            let p3 = be16_bytes(damage as u16);
            let p4 = be16_bytes(nbt.len() as u16) + nbt;
            assert(se_slot(s) =~= p1 + (p2 + (p3 + p4))) by {
                assert(se_slot(s) == ((p1 + p2) + p3) + (be16_bytes(nbt.len() as u16) + nbt));
            }
            lemma_contains_split(d, i, p1, p2 + (p3 + p4));
            lemma_contains_split(d, i + 2, p2, p3 + p4);
            lemma_contains_split(d, i + 3, p3, p4);
            lemma_rt_u16(d, i, id as u16);
            lemma_i16_cast(id);
            lemma_rt_u8(d, i + 2, count as u8);
            assert((count as u8) as i8 == count) by (bit_vector);
            lemma_rt_u16(d, i + 3, damage as u16);
            lemma_i16_cast(damage);
            lemma_rt_nbt_present(d, i + 5, nbt);
        },
    }
}

/// One encodable field decodes from its own bytes back to itself.
#[verifier::rlimit(60)]
#[verifier::spinoff_prover]
proof fn lemma_rt_field(t: FieldType, v: FieldView, d: Seq<u8>, i: int)
    requires
        field_matches(v, t),
        field_encodable(v),
        contains_at(d, i, se_field(v)),
    ensures
        sd_field(t, d, i) == Ok::<(FieldView, int), DecodeError>((v, i + se_field(v).len())),
{
    match v {
        FieldView::U8(b) => {
            lemma_rt_u8(d, i, b);
        },
        FieldView::I8(b) => {
            lemma_rt_u8(d, i, b as u8);
            assert((b as u8) as i8 == b) by (bit_vector);
        },
        FieldView::Bool(b) => {
            lemma_rt_u8(d, i, if b { 1u8 } else { 0u8 });
        },
        FieldView::U16(x) => {
            lemma_rt_u16(d, i, x);
        },
        FieldView::I16(x) => {
            lemma_rt_u16(d, i, x as u16);
            lemma_i16_cast(x);
        },
        FieldView::I32(x) => {
            lemma_rt_u32(d, i, x as u32);
            assert((x as u32) as i32 == x) by (bit_vector);
        },
        FieldView::I64(x) => {
            lemma_rt_u64(d, i, x as u64);
            assert((x as u64) as i64 == x) by (bit_vector);
        },
        FieldView::F32(x) => {
            lemma_rt_u32(d, i, x);
        },
        FieldView::F64(x) => {
            lemma_rt_u64(d, i, x);
        },
        FieldView::Str(s) => {
            lemma_rt_str(d, i, s);
            lemma_rt_utf16(s);
        },
        FieldView::Blob(b) => {
            lemma_contains_split(d, i, be16_bytes(b.len() as u16), b);
            lemma_rt_u16(d, i, b.len() as u16);
            lemma_rt_take(d, i + 2, b);
        },
        FieldView::SlotF(s) => {
            lemma_rt_slot(d, i, s);
        },
        _ => {
            assert(false);
        },
    }
}

/// A matching, encodable field list decodes from its own bytes back to
/// itself, whatever was already accumulated.
proof fn lemma_rt_fields(
    l: Seq<FieldType>,
    fs: Seq<FieldView>,
    d: Seq<u8>,
    i: int,
    acc: Seq<FieldView>,
)
    requires
        l.len() == fs.len(),
        forall|q: int| 0 <= q < l.len() ==> field_matches(#[trigger] fs[q], l[q]),
        forall|q: int| 0 <= q < fs.len() ==> field_encodable(#[trigger] fs[q]),
        contains_at(d, i, se_fields(fs)),
    ensures
        sd_fields(l, d, i, acc) == Ok::<(Seq<FieldView>, int), DecodeError>(
            (acc + fs, i + se_fields(fs).len()),
        ),
    decreases l.len(),
{
    if l.len() == 0 {
        assert(acc + fs =~= acc);
    } else {
        assert(se_fields(fs) == se_field(fs[0]) + se_fields(fs.skip(1)));
        lemma_contains_split(d, i, se_field(fs[0]), se_fields(fs.skip(1)));
        lemma_rt_field(l[0], fs[0], d, i);
        let i1 = i + se_field(fs[0]).len();
        assert(forall|q: int|
            0 <= q < l.skip(1).len() ==> field_matches(#[trigger] fs.skip(1)[q], l.skip(1)[q]));
        assert(forall|q: int| 0 <= q < fs.skip(1).len() ==> field_encodable(#[trigger] fs.skip(1)[q]));
        lemma_rt_fields(l.skip(1), fs.skip(1), d, i1, acc.push(fs[0]));
        assert(acc.push(fs[0]) + fs.skip(1) =~= acc + fs);
    }
}

/// Round trip: any packet on the outbound fragment decodes from its own
/// encoding back to exactly itself, consuming exactly its own bytes, with
/// any further stream bytes behind it left untouched.
pub proof fn lemma_packet_round_trip(p: PacketView, extra: Seq<u8>)
    requires
        packet_encodable(p),
    ensures
        spec_decode_packet(se_packet(p) + extra) == Ok::<(PacketView, int), DecodeError>(
            (p, se_packet(p).len() as int),
        ),
{
    let d = se_packet(p) + extra;
    assert(d[0] == p.id);
    assert(sd_u8(d, 0) == Ok::<(u8, int), DecodeError>((p.id, 1)));
    let l = spec_layout(p.id)->Some_0;
    assert(contains_at(d, 1, se_fields(p.fields))) by {
        assert(d.subrange(1, 1 + se_fields(p.fields).len() as int) =~= se_fields(p.fields));
    }
    lemma_rt_fields(l, p.fields, d, 1, Seq::empty());
    assert(Seq::<FieldView>::empty() + p.fields =~= p.fields);
    let res = spec_decode_packet(d);
    assert(res matches Ok(pr) && pr.0.id == p.id && pr.0.fields == p.fields && pr.1
        == se_packet(p).len());
    assert(res->Ok_0.0 =~~= p) by {
        assert(res->Ok_0.0.id == p.id);
        assert(res->Ok_0.0.fields == p.fields);
    }
}

} // verus!

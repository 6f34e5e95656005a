//! The round-trip law: decoding the encoding of any well-formed,
//! encodable value under its own descriptor yields the value back, with
//! every byte consumed. This is proved once at the level of the wire
//! specification; the executable encoder and decoder are each proved
//! against that specification, so the law carries over to them.

use vstd::prelude::*;
use crate::bytes_be::{
    be_bytes, from_be, lemma_be_bytes_len, lemma_from_be_be_bytes_exact, lemma_pow256_values,
};
use crate::column_type::ColumnType;
use crate::value::{
    valid_elems, valid_fields, valid_pairs, valid_udt_fields, valid_value, CqlModel,
};
use crate::vint::{
    lemma_unzigzag_zigzag, lemma_vint_round_trip, spec_vint_encode, vint_len, zigzag,
};
use crate::wire::{
    can_encode, can_encode_elems, can_encode_fields, can_encode_pairs, spec_decode,
    spec_decode_elems, spec_decode_fields, spec_decode_pairs, spec_decode_udt_fields, spec_encode,
    spec_encode_elems, spec_encode_fields, spec_encode_pairs, MAX_FRAME_LEN, NULL_LEN,
};

verus! {

proof fn lemma_cast_i8(x: i8)
    ensures
        ((x as u8) as i8) == x,
{
    assert(((x as u8) as i8) == x) by (bit_vector);
}

proof fn lemma_cast_i16(x: i16)
    ensures
        ((x as u16) as i16) == x,
{
    assert(((x as u16) as i16) == x) by (bit_vector);
}

proof fn lemma_cast_i32(x: i32)
    ensures
        ((x as u32) as i32) == x,
{
    assert(((x as u32) as i32) == x) by (bit_vector);
}

proof fn lemma_cast_i64(x: i64)
    ensures
        ((x as u64) as i64) == x,
{
    assert(((x as u64) as i64) == x) by (bit_vector);
}

/// An unsigned 64-bit value read back from its eight wire bytes.
proof fn lemma_be8_exact(z: u64)
    ensures
        be_bytes(z as nat, 8).len() == 8,
        from_be(be_bytes(z as nat, 8)) == z,
{
    lemma_pow256_values();
    lemma_be_bytes_len(z as nat, 8);
    lemma_from_be_be_bytes_exact(z as nat, 8);
}

/// An unsigned 32-bit value read back from its four wire bytes.
proof fn lemma_be4_exact(z: u32)
    ensures
        be_bytes(z as nat, 4).len() == 4,
        from_be(be_bytes(z as nat, 4)) == z,
{
    lemma_pow256_values();
    lemma_be_bytes_len(z as nat, 4);
    lemma_from_be_be_bytes_exact(z as nat, 4);
}

/// Round trip of one value: under the descriptor it is valid for, the
/// encoding of an encodable value decodes to exactly that value.
pub proof fn lemma_round_trip(v: CqlModel, t: ColumnType)
    requires
        valid_value(v, t),
        can_encode(v),
    ensures
        spec_decode(spec_encode(v), t) == Option::Some(v),
    decreases v,
{
    let s = spec_encode(v);
    match v {
        CqlModel::Boolean(b) => {},
        CqlModel::Blob(b) => {},
        CqlModel::Counter(c) => {
            lemma_be8_exact(c as u64);
            lemma_cast_i64(c);
        },
        CqlModel::Date(d) => {
            lemma_be4_exact(d);
        },
        CqlModel::Decimal { scale, unscaled } => {
            lemma_be4_exact(scale as u32);
            lemma_cast_i32(scale);
            assert(s.subrange(0, 4) =~= be_bytes((scale as u32) as nat, 4));
            assert(s.skip(4) =~= unscaled);
        },
        CqlModel::Double(bits) => {
            lemma_be8_exact(bits);
        },
        CqlModel::Duration { months, days, nanoseconds } => {
            lemma_duration_round_trip(months, days, nanoseconds);
        },
        CqlModel::Float(bits) => {
            lemma_be4_exact(bits);
        },
        CqlModel::Int(x) => {
            lemma_be4_exact(x as u32);
            lemma_cast_i32(x);
        },
        CqlModel::BigInt(x) => {
            lemma_be8_exact(x as u64);
            lemma_cast_i64(x);
        },
        CqlModel::Text(b) => {},
        CqlModel::Timestamp(ms) => {
            lemma_be8_exact(ms as u64);
            lemma_cast_i64(ms);
        },
        CqlModel::Inet(b) => {},
        CqlModel::SmallInt(x) => {
            lemma_pow256_values();
            lemma_be_bytes_len((x as u16) as nat, 2);
            lemma_from_be_be_bytes_exact((x as u16) as nat, 2);
            lemma_cast_i16(x);
        },
        CqlModel::TinyInt(x) => {
            lemma_cast_i8(x);
        },
        CqlModel::Time(ns) => {
            lemma_be8_exact(ns as u64);
            lemma_cast_i64(ns);
        },
        CqlModel::Uuid(msb, lsb) => {
            lemma_be8_exact(msb);
            lemma_be8_exact(lsb);
            assert(s.subrange(0, 8) =~= be_bytes(msb as nat, 8));
            assert(s.subrange(8, 16) =~= be_bytes(lsb as nat, 8));
        },
        CqlModel::Varint(b) => {},
        CqlModel::List(vs) => {
            let e = t->List_0;
            lemma_be4_exact(vs.len() as u32);
            assert(s.subrange(0, 4) =~= be_bytes(vs.len(), 4));
            assert(s.skip(4) =~= spec_encode_elems(vs));
            lemma_round_trip_elems(vs, *e);
        },
        CqlModel::SetOf(vs) => {
            let e = t->SetOf_0;
            lemma_be4_exact(vs.len() as u32);
            assert(s.subrange(0, 4) =~= be_bytes(vs.len(), 4));
            assert(s.skip(4) =~= spec_encode_elems(vs));
            lemma_round_trip_elems(vs, *e);
        },
        CqlModel::MapOf(ps) => {
            let kt = t->MapOf_0;
            let vt = t->MapOf_1;
            lemma_be4_exact(ps.len() as u32);
            assert(s.subrange(0, 4) =~= be_bytes(ps.len(), 4));
            assert(s.skip(4) =~= spec_encode_pairs(ps));
            lemma_round_trip_pairs(ps, *kt, *vt);
        },
        CqlModel::Tuple(fs) => {
            let ts = t->Tuple_0;
            lemma_round_trip_fields(fs, ts@);
        },
        CqlModel::UserDefinedType(fs) => {
            let fts = t->UserDefinedType_field_types;
            lemma_round_trip_udt_fields(fs, fts@);
        },
    }
}

/// Round trip of a duration's three signed variable-length components.
proof fn lemma_duration_round_trip(months: i32, days: i32, nanoseconds: i64)
    ensures
        spec_decode(
            spec_encode(CqlModel::Duration { months, days, nanoseconds }),
            ColumnType::Duration,
        ) == Option::Some(CqlModel::Duration { months, days, nanoseconds }),
{
    let z1 = zigzag(months as i64);
    let z2 = zigzag(days as i64);
    let z3 = zigzag(nanoseconds);
    let e1 = spec_vint_encode(z1);
    let e2 = spec_vint_encode(z2);
    let e3 = spec_vint_encode(z3);
    let s = spec_encode(CqlModel::Duration { months, days, nanoseconds });
    assert(s == e1 + e2 + e3);
    assert(e1.len() == vint_len(z1) && e2.len() == vint_len(z2) && e3.len() == vint_len(z3)) by {
        lemma_vint_encode_len(z1);
        lemma_vint_encode_len(z2);
        lemma_vint_encode_len(z3);
    }
    let c1 = vint_len(z1);
    let c2 = vint_len(z2);
    let c3 = vint_len(z3);
    assert(s.subrange(0, c1 as int) =~= e1);
    assert(s.subrange(c1 as int, (c1 + c2) as int) =~= e2);
    assert(s.subrange((c1 + c2) as int, (c1 + c2 + c3) as int) =~= e3);
    lemma_vint_round_trip(s, 0, z1);
    lemma_vint_round_trip(s, c1, z2);
    lemma_vint_round_trip(s, c1 + c2, z3);
    lemma_unzigzag_zigzag(months as i64);
    lemma_unzigzag_zigzag(days as i64);
    lemma_unzigzag_zigzag(nanoseconds);
}

/// The encoding of a variable-length integer has its announced length.
proof fn lemma_vint_encode_len(z: u64)
    ensures
        spec_vint_encode(z).len() == vint_len(z),
{
    lemma_be_bytes_len(z as nat, 8);
    lemma_be_bytes_len(z as nat, crate::vint::vint_extra(z));
}

/// Round trip of a sequence of length-prefixed collection elements.
proof fn lemma_round_trip_elems(vs: Seq<CqlModel>, t: ColumnType)
    requires
        valid_elems(vs, t),
        can_encode_elems(vs),
    ensures
        spec_decode_elems(spec_encode_elems(vs), t, vs.len()) == Option::Some(vs),
    decreases vs,
{
    let s = spec_encode_elems(vs);
    if vs.len() == 0 {
        assert(Seq::<CqlModel>::empty() =~= vs);
    } else {
        let head = spec_encode(vs[0]);
        let hlen = head.len();
        lemma_be4_exact(hlen as u32);
        assert(be_bytes(hlen as u32 as nat, 4) == be_bytes(hlen, 4));
        assert(s.subrange(0, 4) =~= be_bytes(hlen, 4));
        assert(from_be(s.subrange(0, 4)) == hlen);
        assert(hlen != NULL_LEN as nat);
        assert(s.len() >= 4 + hlen);
        assert(s.subrange(4, 4 + hlen as int) =~= head);
        lemma_round_trip(vs[0], t);
        assert(s.skip(4 + hlen as int) =~= spec_encode_elems(vs.drop_first()));
        lemma_round_trip_elems(vs.drop_first(), t);
        assert(seq![vs[0]] + vs.drop_first() =~= vs);
    }
}

/// Round trip of a sequence of length-prefixed map entries.
proof fn lemma_round_trip_pairs(ps: Seq<(CqlModel, CqlModel)>, kt: ColumnType, vt: ColumnType)
    requires
        valid_pairs(ps, kt, vt),
        can_encode_pairs(ps),
    ensures
        spec_decode_pairs(spec_encode_pairs(ps), kt, vt, ps.len()) == Option::Some(ps),
    decreases ps,
{
    let s = spec_encode_pairs(ps);
    if ps.len() == 0 {
        assert(Seq::<(CqlModel, CqlModel)>::empty() =~= ps);
    } else {
        let khead = spec_encode(ps[0].0);
        let klen = khead.len();
        let whead = spec_encode(ps[0].1);
        let wlen = whead.len();
        lemma_be4_exact(klen as u32);
        lemma_be4_exact(wlen as u32);
        assert(s.subrange(0, 4) =~= be_bytes(klen, 4));
        assert(from_be(s.subrange(0, 4)) == klen);
        assert(s.len() >= 4 + klen);
        assert(s.subrange(4, 4 + klen as int) =~= khead);
        lemma_round_trip(ps[0].0, kt);
        let s2 = s.skip(4 + klen as int);
        assert(s2 =~= be_bytes(wlen, 4) + whead + spec_encode_pairs(ps.drop_first()));
        assert(s2.subrange(0, 4) =~= be_bytes(wlen, 4));
        assert(from_be(s2.subrange(0, 4)) == wlen);
        assert(s2.len() >= 4 + wlen);
        assert(s2.subrange(4, 4 + wlen as int) =~= whead);
        lemma_round_trip(ps[0].1, vt);
        assert(s2.skip(4 + wlen as int) =~= spec_encode_pairs(ps.drop_first()));
        lemma_round_trip_pairs(ps.drop_first(), kt, vt);
        assert(seq![ps[0]] + ps.drop_first() =~= ps);
        assert(seq![(ps[0].0, ps[0].1)] + ps.drop_first() =~= ps);
    }
}

/// Round trip of tuple fields; a null field travels as the four sentinel
/// bytes and comes back as the null field.
proof fn lemma_round_trip_fields(fs: Seq<Option<CqlModel>>, ts: Seq<ColumnType>)
    requires
        valid_fields(fs, ts),
        can_encode_fields(fs),
    ensures
        spec_decode_fields(spec_encode_fields(fs), ts) == Option::Some(fs),
    decreases fs,
{
    let s = spec_encode_fields(fs);
    if fs.len() == 0 {
        assert(Seq::<Option<CqlModel>>::empty() =~= fs);
    } else {
        match fs[0] {
            Option::Some(v) => {
                let head = spec_encode(v);
                let hlen = head.len();
                lemma_be4_exact(hlen as u32);
                assert(s.subrange(0, 4) =~= be_bytes(hlen, 4));
                assert(from_be(s.subrange(0, 4)) == hlen);
                assert(hlen != NULL_LEN as nat);
                assert(s.len() >= 4 + hlen);
                assert(s.subrange(4, 4 + hlen as int) =~= head);
                lemma_round_trip(v, ts[0]);
                assert(s.skip(4 + hlen as int) =~= spec_encode_fields(fs.drop_first()));
                lemma_round_trip_fields(fs.drop_first(), ts.drop_first());
                assert(seq![fs[0]] + fs.drop_first() =~= fs);
            },
            Option::None => {
                lemma_be4_exact(NULL_LEN);
                assert(s.subrange(0, 4) =~= be_bytes(NULL_LEN as nat, 4));
                assert(from_be(s.subrange(0, 4)) == NULL_LEN as nat);
                assert(s.skip(4) =~= spec_encode_fields(fs.drop_first()));
                lemma_round_trip_fields(fs.drop_first(), ts.drop_first());
                assert(seq![fs[0]] + fs.drop_first() =~= fs);
            },
        }
    }
}

/// Round trip of the declared fields of a user-defined value.
proof fn lemma_round_trip_udt_fields(fs: Seq<Option<CqlModel>>, ts: Seq<(String, ColumnType)>)
    requires
        valid_udt_fields(fs, ts),
        can_encode_fields(fs),
    ensures
        spec_decode_udt_fields(spec_encode_fields(fs), ts) == Option::Some(fs),
    decreases fs,
{
    let s = spec_encode_fields(fs);
    if fs.len() == 0 {
        assert(Seq::<Option<CqlModel>>::empty() =~= fs);
    } else {
        match fs[0] {
            Option::Some(v) => {
                let head = spec_encode(v);
                let hlen = head.len();
                lemma_be4_exact(hlen as u32);
                assert(s.subrange(0, 4) =~= be_bytes(hlen, 4));
                assert(from_be(s.subrange(0, 4)) == hlen);
                assert(hlen != NULL_LEN as nat);
                assert(s.len() >= 4 + hlen);
                assert(s.subrange(4, 4 + hlen as int) =~= head);
                lemma_round_trip(v, ts[0].1);
                assert(s.skip(4 + hlen as int) =~= spec_encode_fields(fs.drop_first()));
                lemma_round_trip_udt_fields(fs.drop_first(), ts.drop_first());
                assert(seq![fs[0]] + fs.drop_first() =~= fs);
            },
            Option::None => {
                lemma_be4_exact(NULL_LEN);
                assert(s.subrange(0, 4) =~= be_bytes(NULL_LEN as nat, 4));
                assert(from_be(s.subrange(0, 4)) == NULL_LEN as nat);
                assert(s.skip(4) =~= spec_encode_fields(fs.drop_first()));
                lemma_round_trip_udt_fields(fs.drop_first(), ts.drop_first());
                assert(seq![fs[0]] + fs.drop_first() =~= fs);
            },
        }
    }
}

} // verus!

verus! {

/// Null distinctness. An absent value travels as the null transport
/// buffer and never reaches the codec, while a present, empty collection
/// encodes to a real four-byte zero count that decodes back to the empty
/// collection: the two can never be confused.
pub proof fn lemma_null_distinctness(t: ColumnType)
    requires
        t is List,
    ensures
        spec_encode(CqlModel::List(Seq::empty())) == seq![0u8, 0u8, 0u8, 0u8],
        spec_encode(CqlModel::List(Seq::empty())).len() < NULL_LEN,
        spec_decode(seq![0u8, 0u8, 0u8, 0u8], t) == Option::Some(
            CqlModel::List(Seq::<CqlModel>::empty()),
        ),
{
    let s = seq![0u8, 0u8, 0u8, 0u8];
    lemma_be4_exact(0);
    reveal_with_fuel(be_bytes, 5);
    assert(be_bytes(0, 4) =~= s);
    assert(spec_encode(CqlModel::List(Seq::empty())) =~= s);
    assert(s.subrange(0, 4) =~= s);
    assert(from_be(s.subrange(0, 4)) == 0);
    assert(s.skip(4) =~= Seq::<u8>::empty());
    assert(spec_decode_elems(s.skip(4), *t->List_0, 0) == Option::Some(Seq::<CqlModel>::empty()));
}

/// Tuple field nullability. When a field's four prefix bytes hold the
/// null sentinel, that field decodes to its null representation without
/// consuming any payload: the remaining fields decode from the bytes
/// immediately after the sentinel, so the next field's offset is
/// unaffected.
pub proof fn lemma_tuple_null_field(s: Seq<u8>, ts: Seq<ColumnType>)
    requires
        ts.len() > 0,
        s.len() >= 4,
        s.subrange(0, 4) == be_bytes(NULL_LEN as nat, 4),
    ensures
        spec_decode_fields(s, ts) == (match spec_decode_fields(s.skip(4), ts.drop_first()) {
            Option::Some(fs) => Option::Some(seq![Option::<CqlModel>::None] + fs),
            Option::None => Option::<Seq<Option<CqlModel>>>::None,
        }),
{
    lemma_be4_exact(NULL_LEN);
}

/// Length boundary. A payload of the largest length a 32-bit prefix can
/// carry, one below the sentinel, still encodes — on its own, and as a
/// length-prefixed collection element — and decodes back exactly; a
/// payload whose length equals the sentinel cannot be encoded as an
/// element at all, and its bare encoding reaches the sentinel length
/// that the transport layer must refuse.
pub proof fn lemma_length_boundary(b: Seq<u8>)
    ensures
        spec_encode(CqlModel::Text(b)).len() == b.len(),
        b.len() == MAX_FRAME_LEN ==> can_encode_elems(seq![CqlModel::Text(b)]) && spec_decode(
            spec_encode(CqlModel::Text(b)),
            ColumnType::Text,
        ) == Option::Some(CqlModel::Text(b)),
        b.len() == NULL_LEN ==> !can_encode_elems(seq![CqlModel::Text(b)]) && spec_encode(
            CqlModel::Text(b),
        ).len() == NULL_LEN,
{
    let vs = seq![CqlModel::Text(b)];
    reveal_with_fuel(can_encode_elems, 3);
    assert(vs.drop_first() =~= Seq::<CqlModel>::empty());
    assert(spec_encode(CqlModel::Text(b)) == b);
    if b.len() == MAX_FRAME_LEN {
        assert(vs[0] == CqlModel::Text(b));
        assert(can_encode_elems(vs));
        assert(spec_decode(b, ColumnType::Text) == Option::Some(CqlModel::Text(b)));
    }
    if b.len() == NULL_LEN {
        assert(vs[0] == CqlModel::Text(b));
        assert(!can_encode_elems(vs));
    }
}

} // verus!

verus! {

/// Decoded values are well-formed: whatever `spec_decode` accepts under
/// a descriptor is a valid value of that descriptor, ready to be
/// encoded again.
pub proof fn lemma_decode_valid(s: Seq<u8>, t: ColumnType)
    ensures
        spec_decode(s, t) is Some ==> valid_value(spec_decode(s, t)->Some_0, t),
    decreases crate::column_type::ct_height(t), 0nat, 0nat,
{
    match t {
        ColumnType::List(e) => {
            if s.len() >= 4 {
                lemma_decode_valid_elems(s.skip(4), *e, from_be(s.subrange(0, 4)));
            }
        },
        ColumnType::SetOf(e) => {
            if s.len() >= 4 {
                lemma_decode_valid_elems(s.skip(4), *e, from_be(s.subrange(0, 4)));
            }
        },
        ColumnType::MapOf(k, w) => {
            if s.len() >= 4 {
                lemma_decode_valid_pairs(s.skip(4), *k, *w, from_be(s.subrange(0, 4)));
            }
        },
        ColumnType::Tuple(ts) => {
            lemma_decode_valid_fields(s, ts@);
        },
        ColumnType::UserDefinedType { field_types, .. } => {
            lemma_decode_valid_udt_fields(s, field_types@);
        },
        _ => {},
    }
}

proof fn lemma_decode_valid_elems(s: Seq<u8>, t: ColumnType, n: nat)
    ensures
        spec_decode_elems(s, t, n) is Some ==> {
            let vs = spec_decode_elems(s, t, n)->Some_0;
            valid_elems(vs, t) && vs.len() == n
        },
    decreases crate::column_type::ct_height(t), 1nat, n,
{
    if n > 0 && s.len() >= 4 {
        let len = from_be(s.subrange(0, 4));
        if len != NULL_LEN as nat && s.len() >= 4 + len {
            lemma_decode_valid(s.subrange(4, 4 + len as int), t);
            lemma_decode_valid_elems(s.skip(4 + len as int), t, (n - 1) as nat);
            if spec_decode_elems(s, t, n) is Some {
                let v = spec_decode(s.subrange(4, 4 + len as int), t)->Some_0;
                let vs = spec_decode_elems(s.skip(4 + len as int), t, (n - 1) as nat)->Some_0;
                assert((seq![v] + vs).drop_first() =~= vs);
            }
        }
    }
}

proof fn lemma_decode_valid_pairs(s: Seq<u8>, kt: ColumnType, vt: ColumnType, n: nat)
    ensures
        spec_decode_pairs(s, kt, vt, n) is Some ==> {
            let ps = spec_decode_pairs(s, kt, vt, n)->Some_0;
            valid_pairs(ps, kt, vt) && ps.len() == n
        },
    decreases crate::column_type::nat_max(
        crate::column_type::ct_height(kt),
        crate::column_type::ct_height(vt),
    ), 1nat, n,
{
    if n > 0 && s.len() >= 4 {
        let klen = from_be(s.subrange(0, 4));
        if klen != NULL_LEN as nat && s.len() >= 4 + klen {
            lemma_decode_valid(s.subrange(4, 4 + klen as int), kt);
            let s2 = s.skip(4 + klen as int);
            if s2.len() >= 4 {
                let vlen = from_be(s2.subrange(0, 4));
                if vlen != NULL_LEN as nat && s2.len() >= 4 + vlen {
                    lemma_decode_valid(s2.subrange(4, 4 + vlen as int), vt);
                    lemma_decode_valid_pairs(s2.skip(4 + vlen as int), kt, vt, (n - 1) as nat);
                    if spec_decode_pairs(s, kt, vt, n) is Some {
                        let k = spec_decode(s.subrange(4, 4 + klen as int), kt)->Some_0;
                        let w = spec_decode(s2.subrange(4, 4 + vlen as int), vt)->Some_0;
                        let ps = spec_decode_pairs(
                            s2.skip(4 + vlen as int),
                            kt,
                            vt,
                            (n - 1) as nat,
                        )->Some_0;
                        assert((seq![(k, w)] + ps).drop_first() =~= ps);
                    }
                }
            }
        }
    }
}

proof fn lemma_decode_valid_fields(s: Seq<u8>, ts: Seq<ColumnType>)
    ensures
        spec_decode_fields(s, ts) is Some ==> valid_fields(spec_decode_fields(s, ts)->Some_0, ts),
    decreases crate::column_type::cts_height(ts), 1nat, ts.len(),
{
    if ts.len() > 0 && s.len() >= 4 {
        let len = from_be(s.subrange(0, 4));
        if len == NULL_LEN as nat {
            lemma_decode_valid_fields(s.skip(4), ts.drop_first());
            if spec_decode_fields(s, ts) is Some {
                let fs = spec_decode_fields(s.skip(4), ts.drop_first())->Some_0;
                assert((seq![Option::<CqlModel>::None] + fs).drop_first() =~= fs);
            }
        } else if s.len() >= 4 + len {
            lemma_decode_valid(s.subrange(4, 4 + len as int), ts[0]);
            lemma_decode_valid_fields(s.skip(4 + len as int), ts.drop_first());
            if spec_decode_fields(s, ts) is Some {
                let v = spec_decode(s.subrange(4, 4 + len as int), ts[0])->Some_0;
                let fs = spec_decode_fields(s.skip(4 + len as int), ts.drop_first())->Some_0;
                assert((seq![Option::Some(v)] + fs).drop_first() =~= fs);
            }
        }
    }
}

proof fn lemma_decode_valid_udt_fields(s: Seq<u8>, ts: Seq<(String, ColumnType)>)
    ensures
        spec_decode_udt_fields(s, ts) is Some ==> valid_udt_fields(
            spec_decode_udt_fields(s, ts)->Some_0,
            ts,
        ),
    decreases crate::column_type::fts_height(ts), 1nat, ts.len(),
{
    if ts.len() > 0 && s.len() >= 4 {
        let len = from_be(s.subrange(0, 4));
        if len == NULL_LEN as nat {
            lemma_decode_valid_udt_fields(s.skip(4), ts.drop_first());
            if spec_decode_udt_fields(s, ts) is Some {
                let fs = spec_decode_udt_fields(s.skip(4), ts.drop_first())->Some_0;
                assert((seq![Option::<CqlModel>::None] + fs).drop_first() =~= fs);
            }
        } else if s.len() >= 4 + len {
            lemma_decode_valid(s.subrange(4, 4 + len as int), ts[0].1);
            lemma_decode_valid_udt_fields(s.skip(4 + len as int), ts.drop_first());
            if spec_decode_udt_fields(s, ts) is Some {
                let v = spec_decode(s.subrange(4, 4 + len as int), ts[0].1)->Some_0;
                let fs = spec_decode_udt_fields(s.skip(4 + len as int), ts.drop_first())->Some_0;
                assert((seq![Option::Some(v)] + fs).drop_first() =~= fs);
            }
        }
    }
}

} // verus!

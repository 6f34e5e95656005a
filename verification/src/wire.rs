//! The wire codec, as mathematics: what bytes a value encodes to, which
//! values can be encoded at all, and what value a byte string decodes to
//! under a Column Type Descriptor. The executable codec is proved against
//! these functions, and the round-trip law relates the two directions.

use vstd::prelude::*;
use crate::bytes_be::{be_bytes, from_be};
use crate::column_type::{ColumnType, cts_height, ct_height, fts_height, nat_max};
use crate::value::CqlModel;
use crate::vint::{spec_vint_decode, spec_vint_encode, unzigzag, zigzag};

verus! {

/// Reserved 32-bit length value meaning "null / absent": never a real
/// payload length, in a wire length prefix and in a transport size alike.
pub const NULL_LEN: u32 = 0xFFFF_FFFF;

/// Largest byte length a 32-bit length prefix can carry: one below the
/// reserved null sentinel.
pub const MAX_FRAME_LEN: u32 = 0xFFFF_FFFE;

/// The byte-exact wire encoding of a value, without any outer length
/// prefix: the enclosing frame (a collection's element prefix, or the
/// transport buffer size) delimits it.
pub open spec fn spec_encode(v: CqlModel) -> Seq<u8>
    decreases v,
{
    match v {
        CqlModel::Boolean(b) => seq![
            if b {
                1u8
            } else {
                0u8
            },
        ],
        CqlModel::Blob(b) => b,
        CqlModel::Counter(c) => be_bytes((c as u64) as nat, 8),
        CqlModel::Date(d) => be_bytes(d as nat, 4),
        CqlModel::Decimal { scale, unscaled } => be_bytes((scale as u32) as nat, 4) + unscaled,
        CqlModel::Double(bits) => be_bytes(bits as nat, 8),
        CqlModel::Duration { months, days, nanoseconds } => spec_vint_encode(
            zigzag(months as i64),
        ) + spec_vint_encode(zigzag(days as i64)) + spec_vint_encode(zigzag(nanoseconds)),
        CqlModel::Float(bits) => be_bytes(bits as nat, 4),
        CqlModel::Int(x) => be_bytes((x as u32) as nat, 4),
        CqlModel::BigInt(x) => be_bytes((x as u64) as nat, 8),
        CqlModel::Text(b) => b,
        CqlModel::Timestamp(ms) => be_bytes((ms as u64) as nat, 8),
        CqlModel::Inet(b) => b,
        CqlModel::SmallInt(x) => be_bytes((x as u16) as nat, 2),
        CqlModel::TinyInt(x) => seq![x as u8],
        CqlModel::Time(ns) => be_bytes((ns as u64) as nat, 8),
        CqlModel::Uuid(msb, lsb) => be_bytes(msb as nat, 8) + be_bytes(lsb as nat, 8),
        CqlModel::Varint(b) => b,
        CqlModel::List(vs) => be_bytes(vs.len(), 4) + spec_encode_elems(vs),
        CqlModel::SetOf(vs) => be_bytes(vs.len(), 4) + spec_encode_elems(vs),
        CqlModel::MapOf(ps) => be_bytes(ps.len(), 4) + spec_encode_pairs(ps),
        CqlModel::Tuple(fs) => spec_encode_fields(fs),
        CqlModel::UserDefinedType(fs) => spec_encode_fields(fs),
    }
}

/// Collection elements: each as a 4-byte length prefix and its payload.
pub open spec fn spec_encode_elems(vs: Seq<CqlModel>) -> Seq<u8>
    decreases vs,
{
    if vs.len() == 0 {
        Seq::empty()
    } else {
        be_bytes(spec_encode(vs[0]).len(), 4) + spec_encode(vs[0]) + spec_encode_elems(
            vs.drop_first(),
        )
    }
}

/// Map entries: each key and each value length-prefixed, key first.
pub open spec fn spec_encode_pairs(ps: Seq<(CqlModel, CqlModel)>) -> Seq<u8>
    decreases ps,
{
    if ps.len() == 0 {
        Seq::empty()
    } else {
        be_bytes(spec_encode(ps[0].0).len(), 4) + spec_encode(ps[0].0) + be_bytes(
            spec_encode(ps[0].1).len(),
            4,
        ) + spec_encode(ps[0].1) + spec_encode_pairs(ps.drop_first())
    }
}

/// Tuple and user-defined fields, positionally: a present field is
/// length-prefixed; a null field is the sentinel length with no payload.
pub open spec fn spec_encode_fields(fs: Seq<Option<CqlModel>>) -> Seq<u8>
    decreases fs,
{
    if fs.len() == 0 {
        Seq::empty()
    } else {
        (match fs[0] {
            Option::Some(v) => be_bytes(spec_encode(v).len(), 4) + spec_encode(v),
            Option::None => be_bytes(NULL_LEN as nat, 4),
        }) + spec_encode_fields(fs.drop_first())
    }
}

/// Can the value be laid out at all: every nested payload must fit its
/// 32-bit length prefix below the null sentinel, and every element count
/// its 4-byte count field.
pub open spec fn can_encode(v: CqlModel) -> bool
    decreases v,
{
    match v {
        CqlModel::List(vs) => vs.len() < 0x1_0000_0000 && can_encode_elems(vs),
        CqlModel::SetOf(vs) => vs.len() < 0x1_0000_0000 && can_encode_elems(vs),
        CqlModel::MapOf(ps) => ps.len() < 0x1_0000_0000 && can_encode_pairs(ps),
        CqlModel::Tuple(fs) => can_encode_fields(fs),
        CqlModel::UserDefinedType(fs) => can_encode_fields(fs),
        _ => true,
    }
}

pub open spec fn can_encode_elems(vs: Seq<CqlModel>) -> bool
    decreases vs,
{
    if vs.len() == 0 {
        true
    } else {
        can_encode(vs[0]) && spec_encode(vs[0]).len() <= MAX_FRAME_LEN && can_encode_elems(
            vs.drop_first(),
        )
    }
}

pub open spec fn can_encode_pairs(ps: Seq<(CqlModel, CqlModel)>) -> bool
    decreases ps,
{
    if ps.len() == 0 {
        true
    } else {
        can_encode(ps[0].0) && spec_encode(ps[0].0).len() <= MAX_FRAME_LEN && can_encode(ps[0].1)
            && spec_encode(ps[0].1).len() <= MAX_FRAME_LEN && can_encode_pairs(ps.drop_first())
    }
}

pub open spec fn can_encode_fields(fs: Seq<Option<CqlModel>>) -> bool
    decreases fs,
{
    if fs.len() == 0 {
        true
    } else {
        (match fs[0] {
            Option::Some(v) => can_encode(v) && spec_encode(v).len() <= MAX_FRAME_LEN,
            Option::None => true,
        }) && can_encode_fields(fs.drop_first())
    }
}

/// The value that the byte string `s` decodes to under descriptor `t`,
/// or `None` when the bytes are malformed: truncated, a count or length
/// in disagreement with the bytes that are present, or a discriminant
/// (the address-family length) that is none of the expected sizes.
/// The whole of `s` must be consumed.
pub open spec fn spec_decode(s: Seq<u8>, t: ColumnType) -> Option<CqlModel>
    decreases ct_height(t), 0nat, 0nat,
{
    match t {
        ColumnType::Boolean => if s.len() == 1 {
            Option::Some(CqlModel::Boolean(s[0] != 0))
        } else {
            Option::None
        },
        ColumnType::Blob => Option::Some(CqlModel::Blob(s)),
        ColumnType::Counter => if s.len() == 8 {
            Option::Some(CqlModel::Counter((from_be(s) as u64) as i64))
        } else {
            Option::None
        },
        ColumnType::Date => if s.len() == 4 {
            Option::Some(CqlModel::Date(from_be(s) as u32))
        } else {
            Option::None
        },
        ColumnType::Decimal => if s.len() >= 4 {
            Option::Some(
                CqlModel::Decimal {
                    scale: (from_be(s.subrange(0, 4)) as u32) as i32,
                    unscaled: s.skip(4),
                },
            )
        } else {
            Option::None
        },
        ColumnType::Double => if s.len() == 8 {
            Option::Some(CqlModel::Double(from_be(s) as u64))
        } else {
            Option::None
        },
        ColumnType::Duration => spec_decode_duration(s),
        ColumnType::Float => if s.len() == 4 {
            Option::Some(CqlModel::Float(from_be(s) as u32))
        } else {
            Option::None
        },
        ColumnType::Int => if s.len() == 4 {
            Option::Some(CqlModel::Int((from_be(s) as u32) as i32))
        } else {
            Option::None
        },
        ColumnType::BigInt => if s.len() == 8 {
            Option::Some(CqlModel::BigInt((from_be(s) as u64) as i64))
        } else {
            Option::None
        },
        ColumnType::Text => Option::Some(CqlModel::Text(s)),
        ColumnType::Timestamp => if s.len() == 8 {
            Option::Some(CqlModel::Timestamp((from_be(s) as u64) as i64))
        } else {
            Option::None
        },
        ColumnType::Inet => if s.len() == 4 || s.len() == 16 {
            Option::Some(CqlModel::Inet(s))
        } else {
            Option::None
        },
        ColumnType::SmallInt => if s.len() == 2 {
            Option::Some(CqlModel::SmallInt((from_be(s) as u16) as i16))
        } else {
            Option::None
        },
        ColumnType::TinyInt => if s.len() == 1 {
            Option::Some(CqlModel::TinyInt(s[0] as i8))
        } else {
            Option::None
        },
        ColumnType::Time => if s.len() == 8 {
            Option::Some(CqlModel::Time((from_be(s) as u64) as i64))
        } else {
            Option::None
        },
        ColumnType::Uuid => if s.len() == 16 {
            Option::Some(
                CqlModel::Uuid(
                    from_be(s.subrange(0, 8)) as u64,
                    from_be(s.subrange(8, 16)) as u64,
                ),
            )
        } else {
            Option::None
        },
        ColumnType::Varint => Option::Some(CqlModel::Varint(s)),
        ColumnType::List(e) => if s.len() >= 4 {
            match spec_decode_elems(s.skip(4), *e, from_be(s.subrange(0, 4))) {
                Option::Some(vs) => Option::Some(CqlModel::List(vs)),
                Option::None => Option::None,
            }
        } else {
            Option::None
        },
        ColumnType::SetOf(e) => if s.len() >= 4 {
            match spec_decode_elems(s.skip(4), *e, from_be(s.subrange(0, 4))) {
                Option::Some(vs) => Option::Some(CqlModel::SetOf(vs)),
                Option::None => Option::None,
            }
        } else {
            Option::None
        },
        ColumnType::MapOf(k, w) => if s.len() >= 4 {
            match spec_decode_pairs(s.skip(4), *k, *w, from_be(s.subrange(0, 4))) {
                Option::Some(ps) => Option::Some(CqlModel::MapOf(ps)),
                Option::None => Option::None,
            }
        } else {
            Option::None
        },
        ColumnType::Tuple(ts) => match spec_decode_fields(s, ts@) {
            Option::Some(fs) => Option::Some(CqlModel::Tuple(fs)),
            Option::None => Option::None,
        },
        ColumnType::UserDefinedType { field_types, .. } => match spec_decode_udt_fields(
            s,
            field_types@,
        ) {
            Option::Some(fs) => Option::Some(CqlModel::UserDefinedType(fs)),
            Option::None => Option::None,
        },
    }
}

/// Exactly `n` length-prefixed elements of type `t`, consuming all of `s`.
/// The sentinel is not a legal element length inside a collection.
pub open spec fn spec_decode_elems(s: Seq<u8>, t: ColumnType, n: nat) -> Option<Seq<CqlModel>>
    decreases ct_height(t), 1nat, n,
{
    if n == 0 {
        if s.len() == 0 {
            Option::Some(Seq::empty())
        } else {
            Option::None
        }
    } else if s.len() < 4 {
        Option::None
    } else {
        let len = from_be(s.subrange(0, 4));
        if len == NULL_LEN as nat || s.len() < 4 + len {
            Option::None
        } else {
            match spec_decode(s.subrange(4, 4 + len as int), t) {
                Option::Some(v) => match spec_decode_elems(s.skip(4 + len as int), t, (n - 1) as nat) {
                    Option::Some(vs) => Option::Some(seq![v] + vs),
                    Option::None => Option::None,
                },
                Option::None => Option::None,
            }
        }
    }
}

/// Exactly `n` length-prefixed key/value pairs, consuming all of `s`.
pub open spec fn spec_decode_pairs(s: Seq<u8>, kt: ColumnType, vt: ColumnType, n: nat) -> Option<
    Seq<(CqlModel, CqlModel)>,
>
    decreases nat_max(ct_height(kt), ct_height(vt)), 1nat, n,
{
    if n == 0 {
        if s.len() == 0 {
            Option::Some(Seq::empty())
        } else {
            Option::None
        }
    } else if s.len() < 4 {
        Option::None
    } else {
        let klen = from_be(s.subrange(0, 4));
        if klen == NULL_LEN as nat || s.len() < 4 + klen {
            Option::None
        } else {
            match spec_decode(s.subrange(4, 4 + klen as int), kt) {
                Option::Some(k) => {
                    let s2 = s.skip(4 + klen as int);
                    if s2.len() < 4 {
                        Option::None
                    } else {
                        let vlen = from_be(s2.subrange(0, 4));
                        if vlen == NULL_LEN as nat || s2.len() < 4 + vlen {
                            Option::None
                        } else {
                            match spec_decode(s2.subrange(4, 4 + vlen as int), vt) {
                                Option::Some(w) => match spec_decode_pairs(
                                    s2.skip(4 + vlen as int),
                                    kt,
                                    vt,
                                    (n - 1) as nat,
                                ) {
                                    Option::Some(ps) => Option::Some(seq![(k, w)] + ps),
                                    Option::None => Option::None,
                                },
                                Option::None => Option::None,
                            }
                        }
                    }
                },
                Option::None => Option::None,
            }
        }
    }
}

/// The declared fields positionally, consuming all of `s`. A field whose
/// prefix is the null sentinel is the null field: no payload follows it,
/// and the next field starts right after the four sentinel bytes.
pub open spec fn spec_decode_fields(s: Seq<u8>, ts: Seq<ColumnType>) -> Option<
    Seq<Option<CqlModel>>,
>
    decreases cts_height(ts), 1nat, ts.len(),
{
    if ts.len() == 0 {
        if s.len() == 0 {
            Option::Some(Seq::empty())
        } else {
            Option::None
        }
    } else if s.len() < 4 {
        Option::None
    } else {
        let len = from_be(s.subrange(0, 4));
        if len == NULL_LEN as nat {
            match spec_decode_fields(s.skip(4), ts.drop_first()) {
                Option::Some(fs) => Option::Some(seq![Option::<CqlModel>::None] + fs),
                Option::None => Option::None,
            }
        } else if s.len() < 4 + len {
            Option::None
        } else {
            match spec_decode(s.subrange(4, 4 + len as int), ts[0]) {
                Option::Some(v) => match spec_decode_fields(s.skip(4 + len as int), ts.drop_first()) {
                    Option::Some(fs) => Option::Some(seq![Option::Some(v)] + fs),
                    Option::None => Option::None,
                },
                Option::None => Option::None,
            }
        }
    }
}

/// As `spec_decode_fields`, over the declared fields of a user-defined
/// type.
pub open spec fn spec_decode_udt_fields(s: Seq<u8>, ts: Seq<(String, ColumnType)>) -> Option<
    Seq<Option<CqlModel>>,
>
    decreases fts_height(ts), 1nat, ts.len(),
{
    if ts.len() == 0 {
        if s.len() == 0 {
            Option::Some(Seq::empty())
        } else {
            Option::None
        }
    } else if s.len() < 4 {
        Option::None
    } else {
        let len = from_be(s.subrange(0, 4));
        if len == NULL_LEN as nat {
            match spec_decode_udt_fields(s.skip(4), ts.drop_first()) {
                Option::Some(fs) => Option::Some(seq![Option::<CqlModel>::None] + fs),
                Option::None => Option::None,
            }
        } else if s.len() < 4 + len {
            Option::None
        } else {
            match spec_decode(s.subrange(4, 4 + len as int), ts[0].1) {
                Option::Some(v) => match spec_decode_udt_fields(s.skip(4 + len as int), ts.drop_first()) {
                    Option::Some(fs) => Option::Some(seq![Option::Some(v)] + fs),
                    Option::None => Option::None,
                },
                Option::None => Option::None,
            }
        }
    }
}

/// Three variable-length signed integers, in order months, days,
/// nanoseconds; the first two must fit 32 bits.
pub open spec fn spec_decode_duration(s: Seq<u8>) -> Option<CqlModel> {
    match spec_vint_decode(s, 0) {
        Option::Some((z1, c1)) => match spec_vint_decode(s, c1) {
            Option::Some((z2, c2)) => match spec_vint_decode(s, c1 + c2) {
                Option::Some((z3, c3)) => {
                    if c1 + c2 + c3 == s.len() {
                        let m = unzigzag(z1);
                        let d = unzigzag(z2);
                        if -0x8000_0000 <= m <= 0x7FFF_FFFF && -0x8000_0000 <= d <= 0x7FFF_FFFF {
                            Option::Some(
                                CqlModel::Duration {
                                    months: m as i32,
                                    days: d as i32,
                                    nanoseconds: unzigzag(z3),
                                },
                            )
                        } else {
                            Option::None
                        }
                    } else {
                        Option::None
                    }
                },
                Option::None => Option::None,
            },
            Option::None => Option::None,
        },
        Option::None => Option::None,
    }
}

} // verus!

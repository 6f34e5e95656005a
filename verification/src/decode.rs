//! The executable decoder: reads a value of a given Column Type
//! Descriptor out of a byte window, proved to return exactly what
//! `spec_decode` says — the decoded value on well-formed bytes, and
//! `MalformedValue` precisely when the specification calls the bytes
//! malformed.

use vstd::prelude::*;
use vstd::slice::{slice_subrange, slice_to_vec};
use crate::bytes_be::{lemma_pow256_values, read_be_u64, read_u32_at};
use crate::column_type::{ColumnType, cts_height, ct_height, fts_height};
use crate::errors::MarshalError;
use crate::value::{
    field_views_of, lemma_field_views_of, lemma_pair_views_of, lemma_views_of, pair_views_of,
    views_of, CqlDuration, CqlModel, CqlValue, Counter, Time, Timestamp,
};
use crate::vint::{unzigzag_of, vint_decode};
use crate::wire::{
    spec_decode, spec_decode_duration, spec_decode_elems, spec_decode_fields, spec_decode_pairs,
    spec_decode_udt_fields, NULL_LEN,
};

verus! {

/// Decode one value from the whole of `bytes` under descriptor `t`.
pub fn decode_value(bytes: &[u8], t: &ColumnType) -> (r: Result<CqlValue, MarshalError>)
    ensures
        match r {
            Ok(v) => spec_decode(bytes@, *t) == Option::Some(v@),
            Err(e) => e == MarshalError::MalformedValue && spec_decode(bytes@, *t) is None,
        },
{
    let n: usize = bytes.len();
    let r = decode_at(bytes, 0, n, t);
    proof {
        assert(bytes@.subrange(0, n as int) =~= bytes@);
    }
    r
}

/// Decode one value from the window `bytes[lo..hi]`.
#[verifier::rlimit(100)]
fn decode_at(bytes: &[u8], lo: usize, hi: usize, t: &ColumnType) -> (r: Result<
    CqlValue,
    MarshalError,
>)
    requires
        lo <= hi <= bytes@.len(),
    ensures
        match r {
            Ok(v) => spec_decode(bytes@.subrange(lo as int, hi as int), *t) == Option::Some(v@),
            Err(e) => e == MarshalError::MalformedValue && spec_decode(
                bytes@.subrange(lo as int, hi as int),
                *t,
            ) is None,
        },
    decreases ct_height(*t), 0nat, 0nat,
{
    let ghost s = bytes@.subrange(lo as int, hi as int);
    proof {
        lemma_pow256_values();
    }
    match t {
        ColumnType::Boolean => {
            if hi - lo == 1 {
                Ok(CqlValue::Boolean(bytes[lo] != 0))
            } else {
                Err(MarshalError::MalformedValue)
            }
        },
        ColumnType::Blob => Ok(CqlValue::Blob(slice_to_vec(slice_subrange(bytes, lo, hi)))),
        ColumnType::Counter => {
            if hi - lo == 8 {
                let w: u64 = read_be_u64(bytes, lo, hi);
                Ok(CqlValue::Counter(Counter(w as i64)))
            } else {
                Err(MarshalError::MalformedValue)
            }
        },
        ColumnType::Date => {
            if hi - lo == 4 {
                let w: u64 = read_be_u64(bytes, lo, hi);
                Ok(CqlValue::Date(w as u32))
            } else {
                Err(MarshalError::MalformedValue)
            }
        },
        ColumnType::Decimal => {
            if hi - lo >= 4 {
                let w: u32 = read_u32_at(bytes, lo);
                proof {
                    assert(s.subrange(0, 4) =~= bytes@.subrange(lo as int, lo + 4));
                    assert(s.skip(4) =~= bytes@.subrange(lo + 4, hi as int));
                }
                Ok(
                    CqlValue::Decimal {
                        scale: w as i32,
                        unscaled: slice_to_vec(slice_subrange(bytes, lo + 4, hi)),
                    },
                )
            } else {
                Err(MarshalError::MalformedValue)
            }
        },
        ColumnType::Double => {
            if hi - lo == 8 {
                let w: u64 = read_be_u64(bytes, lo, hi);
                Ok(CqlValue::Double(w))
            } else {
                Err(MarshalError::MalformedValue)
            }
        },
        ColumnType::Duration => decode_duration_at(bytes, lo, hi),
        ColumnType::Float => {
            if hi - lo == 4 {
                let w: u64 = read_be_u64(bytes, lo, hi);
                Ok(CqlValue::Float(w as u32))
            } else {
                Err(MarshalError::MalformedValue)
            }
        },
        ColumnType::Int => {
            if hi - lo == 4 {
                let w: u64 = read_be_u64(bytes, lo, hi);
                Ok(CqlValue::Int((w as u32) as i32))
            } else {
                Err(MarshalError::MalformedValue)
            }
        },
        ColumnType::BigInt => {
            if hi - lo == 8 {
                let w: u64 = read_be_u64(bytes, lo, hi);
                Ok(CqlValue::BigInt(w as i64))
            } else {
                Err(MarshalError::MalformedValue)
            }
        },
        ColumnType::Text => Ok(CqlValue::Text(slice_to_vec(slice_subrange(bytes, lo, hi)))),
        ColumnType::Timestamp => {
            if hi - lo == 8 {
                let w: u64 = read_be_u64(bytes, lo, hi);
                Ok(CqlValue::Timestamp(Timestamp(w as i64)))
            } else {
                Err(MarshalError::MalformedValue)
            }
        },
        ColumnType::Inet => {
            if hi - lo == 4 || hi - lo == 16 {
                Ok(CqlValue::Inet(slice_to_vec(slice_subrange(bytes, lo, hi))))
            } else {
                Err(MarshalError::MalformedValue)
            }
        },
        ColumnType::SmallInt => {
            if hi - lo == 2 {
                let w: u64 = read_be_u64(bytes, lo, hi);
                Ok(CqlValue::SmallInt((w as u16) as i16))
            } else {
                Err(MarshalError::MalformedValue)
            }
        },
        ColumnType::TinyInt => {
            if hi - lo == 1 {
                Ok(CqlValue::TinyInt(bytes[lo] as i8))
            } else {
                Err(MarshalError::MalformedValue)
            }
        },
        ColumnType::Time => {
            if hi - lo == 8 {
                let w: u64 = read_be_u64(bytes, lo, hi);
                Ok(CqlValue::Time(Time(w as i64)))
            } else {
                Err(MarshalError::MalformedValue)
            }
        },
        ColumnType::Uuid => {
            if hi - lo == 16 {
                let msb: u64 = read_be_u64(bytes, lo, lo + 8);
                let lsb: u64 = read_be_u64(bytes, lo + 8, hi);
                proof {
                    assert(s.subrange(0, 8) =~= bytes@.subrange(lo as int, lo + 8));
                    assert(s.subrange(8, 16) =~= bytes@.subrange(lo + 8, hi as int));
                }
                Ok(CqlValue::Uuid(msb, lsb))
            } else {
                Err(MarshalError::MalformedValue)
            }
        },
        ColumnType::Varint => Ok(CqlValue::Varint(slice_to_vec(slice_subrange(bytes, lo, hi)))),
        ColumnType::List(e) => {
            if hi - lo >= 4 {
                let n: u32 = read_u32_at(bytes, lo);
                proof {
                    assert(s.subrange(0, 4) =~= bytes@.subrange(lo as int, lo + 4));
                    assert(s.skip(4) =~= bytes@.subrange(lo + 4, hi as int));
                }
                match decode_elems(bytes, lo + 4, hi, &**e, n) {
                    Ok(vs) => Ok(CqlValue::List(vs)),
                    Err(e) => Err(e),
                }
            } else {
                Err(MarshalError::MalformedValue)
            }
        },
        ColumnType::SetOf(e) => {
            if hi - lo >= 4 {
                let n: u32 = read_u32_at(bytes, lo);
                proof {
                    assert(s.subrange(0, 4) =~= bytes@.subrange(lo as int, lo + 4));
                    assert(s.skip(4) =~= bytes@.subrange(lo + 4, hi as int));
                }
                match decode_elems(bytes, lo + 4, hi, &**e, n) {
                    Ok(vs) => Ok(CqlValue::SetOf(vs)),
                    Err(e) => Err(e),
                }
            } else {
                Err(MarshalError::MalformedValue)
            }
        },
        ColumnType::MapOf(k, w) => {
            if hi - lo >= 4 {
                let n: u32 = read_u32_at(bytes, lo);
                proof {
                    assert(s.subrange(0, 4) =~= bytes@.subrange(lo as int, lo + 4));
                    assert(s.skip(4) =~= bytes@.subrange(lo + 4, hi as int));
                }
                match decode_pairs(bytes, lo + 4, hi, &**k, &**w, n) {
                    Ok(ps) => Ok(CqlValue::MapOf(ps)),
                    Err(e) => Err(e),
                }
            } else {
                Err(MarshalError::MalformedValue)
            }
        },
        ColumnType::Tuple(ts) => {
            proof {
                assert(ts@.skip(0) =~= ts@);
            }
            match decode_fields(bytes, lo, hi, ts, 0) {
                Ok(fs) => Ok(CqlValue::Tuple(fs)),
                Err(e) => Err(e),
            }
        },
        ColumnType::UserDefinedType { field_types, .. } => {
            proof {
                assert(field_types@.skip(0) =~= field_types@);
            }
            match decode_udt_fields(bytes, lo, hi, field_types, 0) {
                Ok(fs) => Ok(CqlValue::UserDefinedType(fs)),
                Err(e) => Err(e),
            }
        },
    }
}

/// Decode exactly `n` length-prefixed elements filling `bytes[lo..hi]`.
#[verifier::rlimit(50)]
fn decode_elems(bytes: &[u8], lo: usize, hi: usize, t: &ColumnType, n: u32) -> (r: Result<
    Vec<CqlValue>,
    MarshalError,
>)
    requires
        lo <= hi <= bytes@.len(),
    ensures
        match r {
            Ok(vs) => spec_decode_elems(bytes@.subrange(lo as int, hi as int), *t, n as nat)
                == Option::Some(views_of(vs@)),
            Err(e) => e == MarshalError::MalformedValue && spec_decode_elems(
                bytes@.subrange(lo as int, hi as int),
                *t,
                n as nat,
            ) is None,
        },
    decreases ct_height(*t), 1nat, n,
{
    let ghost s = bytes@.subrange(lo as int, hi as int);
    if n == 0 {
        if lo == hi {
            let vs: Vec<CqlValue> = Vec::new();
            proof {
                assert(views_of(vs@) =~= Seq::<CqlModel>::empty());
            }
            Ok(vs)
        } else {
            Err(MarshalError::MalformedValue)
        }
    } else if hi - lo < 4 {
        Err(MarshalError::MalformedValue)
    } else {
        let len32: u32 = read_u32_at(bytes, lo);
        proof {
            assert(s.subrange(0, 4) =~= bytes@.subrange(lo as int, lo + 4));
        }
        if len32 == NULL_LEN {
            return Err(MarshalError::MalformedValue);
        }
        let len: usize = len32 as usize;
        if hi - lo - 4 < len {
            return Err(MarshalError::MalformedValue);
        }
        proof {
            assert(s.subrange(4, 4 + len as int) =~= bytes@.subrange(lo + 4, lo + 4 + len as int));
            assert(s.skip(4 + len as int) =~= bytes@.subrange(lo + 4 + len as int, hi as int));
        }
        match decode_at(bytes, lo + 4, lo + 4 + len, t) {
            Ok(v) => {
                match decode_elems(bytes, lo + 4 + len, hi, t, n - 1) {
                    Ok(rest) => {
                        let ghost old_rest = rest@;
                        let mut rest = rest;
                        rest.insert(0, v);
                        proof {
                            lemma_views_of(old_rest);
                            lemma_views_of(rest@);
                            assert(rest@ =~= seq![v] + old_rest);
                            assert forall|i: int| 0 <= i < rest@.len() implies views_of(rest@)[i]
                                == (seq![v@] + views_of(old_rest))[i] by {
                                assert(views_of(rest@)[i] == rest@[i]@);
                                if i > 0 {
                                    assert(rest@[i] == old_rest[i - 1]);
                                    assert(views_of(old_rest)[i - 1] == old_rest[i - 1]@);
                                } else {
                                    assert(rest@[0] == v);
                                }
                            }
                            assert(views_of(rest@) =~= seq![v@] + views_of(old_rest));
                        }
                        Ok(rest)
                    },
                    Err(e) => Err(e),
                }
            },
            Err(e) => Err(e),
        }
    }
}

/// Decode exactly `n` length-prefixed key/value entries filling
/// `bytes[lo..hi]`.
#[verifier::rlimit(100)]
fn decode_pairs(bytes: &[u8], lo: usize, hi: usize, kt: &ColumnType, vt: &ColumnType, n: u32) -> (r:
    Result<Vec<(CqlValue, CqlValue)>, MarshalError>)
    requires
        lo <= hi <= bytes@.len(),
    ensures
        match r {
            Ok(ps) => spec_decode_pairs(bytes@.subrange(lo as int, hi as int), *kt, *vt, n as nat)
                == Option::Some(pair_views_of(ps@)),
            Err(e) => e == MarshalError::MalformedValue && spec_decode_pairs(
                bytes@.subrange(lo as int, hi as int),
                *kt,
                *vt,
                n as nat,
            ) is None,
        },
    decreases crate::column_type::nat_max(ct_height(*kt), ct_height(*vt)), 1nat, n,
{
    let ghost s = bytes@.subrange(lo as int, hi as int);
    if n == 0 {
        if lo == hi {
            let ps: Vec<(CqlValue, CqlValue)> = Vec::new();
            proof {
                assert(pair_views_of(ps@) =~= Seq::<(CqlModel, CqlModel)>::empty());
            }
            Ok(ps)
        } else {
            Err(MarshalError::MalformedValue)
        }
    } else if hi - lo < 4 {
        Err(MarshalError::MalformedValue)
    } else {
        let klen32: u32 = read_u32_at(bytes, lo);
        proof {
            assert(s.subrange(0, 4) =~= bytes@.subrange(lo as int, lo + 4));
        }
        if klen32 == NULL_LEN {
            return Err(MarshalError::MalformedValue);
        }
        let klen: usize = klen32 as usize;
        if hi - lo - 4 < klen {
            return Err(MarshalError::MalformedValue);
        }
        let ghost s2 = s.skip(4 + klen as int);
        proof {
            assert(s.subrange(4, 4 + klen as int) =~= bytes@.subrange(
                lo + 4,
                lo + 4 + klen as int,
            ));
            assert(s2 =~= bytes@.subrange(lo + 4 + klen as int, hi as int));
        }
        let k = match decode_at(bytes, lo + 4, lo + 4 + klen, kt) {
            Ok(k) => k,
            Err(e) => {
                return Err(e);
            },
        };
        let mid: usize = lo + 4 + klen;
        if hi - mid < 4 {
            return Err(MarshalError::MalformedValue);
        }
        let vlen32: u32 = read_u32_at(bytes, mid);
        proof {
            assert(s2.subrange(0, 4) =~= bytes@.subrange(mid as int, mid + 4));
        }
        if vlen32 == NULL_LEN {
            return Err(MarshalError::MalformedValue);
        }
        let vlen: usize = vlen32 as usize;
        if hi - mid - 4 < vlen {
            return Err(MarshalError::MalformedValue);
        }
        proof {
            assert(s2.subrange(4, 4 + vlen as int) =~= bytes@.subrange(
                mid + 4,
                mid + 4 + vlen as int,
            ));
            assert(s2.skip(4 + vlen as int) =~= bytes@.subrange(mid + 4 + vlen as int, hi as int));
        }
        let w = match decode_at(bytes, mid + 4, mid + 4 + vlen, vt) {
            Ok(w) => w,
            Err(e) => {
                return Err(e);
            },
        };
        match decode_pairs(bytes, mid + 4 + vlen, hi, kt, vt, n - 1) {
            Ok(rest) => {
                let ghost old_rest = rest@;
                let mut rest = rest;
                let ghost kv = (k@, w@);
                rest.insert(0, (k, w));
                proof {
                    lemma_pair_views_of(old_rest);
                    lemma_pair_views_of(rest@);
                    assert forall|i: int| 0 <= i < rest@.len() implies pair_views_of(rest@)[i] == (
                    seq![kv] + pair_views_of(old_rest))[i] by {
                        assert(pair_views_of(rest@)[i] == (rest@[i].0@, rest@[i].1@));
                        if i > 0 {
                            assert(rest@[i] == old_rest[i - 1]);
                            assert(pair_views_of(old_rest)[i - 1] == (
                                old_rest[i - 1].0@,
                                old_rest[i - 1].1@,
                            ));
                        } else {
                            assert(rest@[0].0 == k && rest@[0].1 == w);
                        }
                    }
                    assert(pair_views_of(rest@) =~= seq![kv] + pair_views_of(old_rest));
                }
                Ok(rest)
            },
            Err(e) => Err(e),
        }
    }
}

/// Decode the declared tuple fields from `fi` on, filling `bytes[lo..hi]`.
#[verifier::rlimit(50)]
fn decode_fields(bytes: &[u8], lo: usize, hi: usize, ts: &Vec<ColumnType>, fi: usize) -> (r: Result<
    Vec<Option<CqlValue>>,
    MarshalError,
>)
    requires
        lo <= hi <= bytes@.len(),
        fi <= ts@.len(),
    ensures
        match r {
            Ok(fs) => spec_decode_fields(bytes@.subrange(lo as int, hi as int), ts@.skip(fi as int))
                == Option::Some(field_views_of(fs@)),
            Err(e) => e == MarshalError::MalformedValue && spec_decode_fields(
                bytes@.subrange(lo as int, hi as int),
                ts@.skip(fi as int),
            ) is None,
        },
    decreases cts_height(ts@.skip(fi as int)), 1nat, ts@.len() - fi as int,
{
    let ghost s = bytes@.subrange(lo as int, hi as int);
    let ghost tst = ts@.skip(fi as int);
    if fi == ts.len() {
        if lo == hi {
            let fs: Vec<Option<CqlValue>> = Vec::new();
            proof {
                assert(field_views_of(fs@) =~= Seq::<Option<CqlModel>>::empty());
            }
            Ok(fs)
        } else {
            Err(MarshalError::MalformedValue)
        }
    } else if hi - lo < 4 {
        Err(MarshalError::MalformedValue)
    } else {
        proof {
            assert(tst[0] == ts@[fi as int]);
            assert(tst.drop_first() =~= ts@.skip(fi as int + 1));
        }
        let len32: u32 = read_u32_at(bytes, lo);
        proof {
            assert(s.subrange(0, 4) =~= bytes@.subrange(lo as int, lo + 4));
        }
        if len32 == NULL_LEN {
            proof {
                assert(s.skip(4) =~= bytes@.subrange(lo + 4, hi as int));
            }
            match decode_fields(bytes, lo + 4, hi, ts, fi + 1) {
                Ok(rest) => {
                    let ghost old_rest = rest@;
                    let mut rest = rest;
                    rest.insert(0, Option::None);
                    proof {
                        lemma_field_views_of(old_rest);
                        lemma_field_views_of(rest@);
                        assert forall|i: int| 0 <= i < rest@.len() implies field_views_of(rest@)[i]
                            == (seq![Option::<CqlModel>::None] + field_views_of(old_rest))[i] by {
                            assert(0 <= i < rest@.len());
                            if i > 0 {
                                assert(rest@[i] == old_rest[i - 1]);
                            } else {
                                assert(rest@[0] is None);
                            }
                        }
                        assert(field_views_of(rest@) =~= seq![Option::<CqlModel>::None]
                            + field_views_of(old_rest));
                    }
                    Ok(rest)
                },
                Err(e) => Err(e),
            }
        } else {
            let len: usize = len32 as usize;
            if hi - lo - 4 < len {
                return Err(MarshalError::MalformedValue);
            }
            proof {
                assert(s.subrange(4, 4 + len as int) =~= bytes@.subrange(
                    lo + 4,
                    lo + 4 + len as int,
                ));
                assert(s.skip(4 + len as int) =~= bytes@.subrange(lo + 4 + len as int, hi as int));
            }
            match decode_at(bytes, lo + 4, lo + 4 + len, &ts[fi]) {
                Ok(v) => {
                    match decode_fields(bytes, lo + 4 + len, hi, ts, fi + 1) {
                        Ok(rest) => {
                            let ghost old_rest = rest@;
                            let ghost vm = v@;
                            let mut rest = rest;
                            rest.insert(0, Option::Some(v));
                            proof {
                                lemma_field_views_of(old_rest);
                                lemma_field_views_of(rest@);
                                assert forall|i: int|
                                    0 <= i < rest@.len() implies field_views_of(rest@)[i] == (seq![
                                    Option::Some(vm)] + field_views_of(old_rest))[i] by {
                                    assert(0 <= i < rest@.len());
                                    if i > 0 {
                                        assert(rest@[i] == old_rest[i - 1]);
                                    } else {
                                        assert(rest@[0] == Option::Some(v));
                                    }
                                }
                                assert(field_views_of(rest@) =~= seq![Option::Some(vm)]
                                    + field_views_of(old_rest));
                            }
                            Ok(rest)
                        },
                        Err(e) => Err(e),
                    }
                },
                Err(e) => Err(e),
            }
        }
    }
}

/// Decode the declared fields of a user-defined value from `fi` on,
/// filling `bytes[lo..hi]`.
#[verifier::rlimit(50)]
fn decode_udt_fields(
    bytes: &[u8],
    lo: usize,
    hi: usize,
    ts: &Vec<(String, ColumnType)>,
    fi: usize,
) -> (r: Result<Vec<Option<CqlValue>>, MarshalError>)
    requires
        lo <= hi <= bytes@.len(),
        fi <= ts@.len(),
    ensures
        match r {
            Ok(fs) => spec_decode_udt_fields(
                bytes@.subrange(lo as int, hi as int),
                ts@.skip(fi as int),
            ) == Option::Some(field_views_of(fs@)),
            Err(e) => e == MarshalError::MalformedValue && spec_decode_udt_fields(
                bytes@.subrange(lo as int, hi as int),
                ts@.skip(fi as int),
            ) is None,
        },
    decreases fts_height(ts@.skip(fi as int)), 1nat, ts@.len() - fi as int,
{
    let ghost s = bytes@.subrange(lo as int, hi as int);
    let ghost tst = ts@.skip(fi as int);
    if fi == ts.len() {
        if lo == hi {
            let fs: Vec<Option<CqlValue>> = Vec::new();
            proof {
                assert(field_views_of(fs@) =~= Seq::<Option<CqlModel>>::empty());
            }
            Ok(fs)
        } else {
            Err(MarshalError::MalformedValue)
        }
    } else if hi - lo < 4 {
        Err(MarshalError::MalformedValue)
    } else {
        proof {
            assert(tst[0] == ts@[fi as int]);
            assert(tst.drop_first() =~= ts@.skip(fi as int + 1));
        }
        let len32: u32 = read_u32_at(bytes, lo);
        proof {
            assert(s.subrange(0, 4) =~= bytes@.subrange(lo as int, lo + 4));
        }
        if len32 == NULL_LEN {
            proof {
                assert(s.skip(4) =~= bytes@.subrange(lo + 4, hi as int));
            }
            match decode_udt_fields(bytes, lo + 4, hi, ts, fi + 1) {
                Ok(rest) => {
                    let ghost old_rest = rest@;
                    let mut rest = rest;
                    rest.insert(0, Option::None);
                    proof {
                        lemma_field_views_of(old_rest);
                        lemma_field_views_of(rest@);
                        assert forall|i: int| 0 <= i < rest@.len() implies field_views_of(rest@)[i]
                            == (seq![Option::<CqlModel>::None] + field_views_of(old_rest))[i] by {
                            assert(0 <= i < rest@.len());
                            if i > 0 {
                                assert(rest@[i] == old_rest[i - 1]);
                            } else {
                                assert(rest@[0] is None);
                            }
                        }
                        assert(field_views_of(rest@) =~= seq![Option::<CqlModel>::None]
                            + field_views_of(old_rest));
                    }
                    Ok(rest)
                },
                Err(e) => Err(e),
            }
        } else {
            let len: usize = len32 as usize;
            if hi - lo - 4 < len {
                return Err(MarshalError::MalformedValue);
            }
            proof {
                assert(s.subrange(4, 4 + len as int) =~= bytes@.subrange(
                    lo + 4,
                    lo + 4 + len as int,
                ));
                assert(s.skip(4 + len as int) =~= bytes@.subrange(lo + 4 + len as int, hi as int));
            }
            match decode_at(bytes, lo + 4, lo + 4 + len, &ts[fi].1) {
                Ok(v) => {
                    match decode_udt_fields(bytes, lo + 4 + len, hi, ts, fi + 1) {
                        Ok(rest) => {
                            let ghost old_rest = rest@;
                            let ghost vm = v@;
                            let mut rest = rest;
                            rest.insert(0, Option::Some(v));
                            proof {
                                lemma_field_views_of(old_rest);
                                lemma_field_views_of(rest@);
                                assert forall|i: int|
                                    0 <= i < rest@.len() implies field_views_of(rest@)[i] == (seq![
                                    Option::Some(vm)] + field_views_of(old_rest))[i] by {
                                    assert(0 <= i < rest@.len());
                                    if i > 0 {
                                        assert(rest@[i] == old_rest[i - 1]);
                                    } else {
                                        assert(rest@[0] == Option::Some(v));
                                    }
                                }
                                assert(field_views_of(rest@) =~= seq![Option::Some(vm)]
                                    + field_views_of(old_rest));
                            }
                            Ok(rest)
                        },
                        Err(e) => Err(e),
                    }
                },
                Err(e) => Err(e),
            }
        }
    }
}

/// Decode a duration: three signed variable-length integers filling the
/// window, the first two within 32 bits.
fn decode_duration_at(bytes: &[u8], lo: usize, hi: usize) -> (r: Result<CqlValue, MarshalError>)
    requires
        lo <= hi <= bytes@.len(),
    ensures
        match r {
            Ok(v) => spec_decode_duration(bytes@.subrange(lo as int, hi as int)) == Option::Some(
                v@,
            ),
            Err(e) => e == MarshalError::MalformedValue && spec_decode_duration(
                bytes@.subrange(lo as int, hi as int),
            ) is None,
        },
{
    let sub: &[u8] = slice_subrange(bytes, lo, hi);
    let (z1, c1) = match vint_decode(sub, 0) {
        Some(p) => p,
        None => {
            return Err(MarshalError::MalformedValue);
        },
    };
    let (z2, c2) = match vint_decode(sub, c1) {
        Some(p) => p,
        None => {
            return Err(MarshalError::MalformedValue);
        },
    };
    let (z3, c3) = match vint_decode(sub, c1 + c2) {
        Some(p) => p,
        None => {
            return Err(MarshalError::MalformedValue);
        },
    };
    if c1 + c2 + c3 != sub.len() {
        return Err(MarshalError::MalformedValue);
    }
    let m: i64 = unzigzag_of(z1);
    let d: i64 = unzigzag_of(z2);
    if m < -0x8000_0000 || m > 0x7FFF_FFFF || d < -0x8000_0000 || d > 0x7FFF_FFFF {
        return Err(MarshalError::MalformedValue);
    }
    Ok(
        CqlValue::Duration(
            CqlDuration { months: m as i32, days: d as i32, nanoseconds: unzigzag_of(z3) },
        ),
    )
}

} // verus!

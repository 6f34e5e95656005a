//! The executable encoder: turns a value into its wire bytes, proved to
//! produce exactly `spec_encode`, and to fail with `ValueTooLarge` exactly
//! when some nested payload or count cannot fit its 32-bit field.

use vstd::prelude::*;
use vstd::slice::slice_to_vec;
use crate::bytes_be::be_u64;
use crate::errors::MarshalError;
use crate::value::{
    field_views_of, lemma_field_views_of, lemma_pair_views_of, lemma_views_of, pair_views_of,
    views_of, CqlValue,
};
use crate::vint::{vint_encode, zigzag_of};
use crate::wire::{
    can_encode, can_encode_elems, can_encode_fields, can_encode_pairs, spec_encode,
    spec_encode_elems, spec_encode_fields, spec_encode_pairs, MAX_FRAME_LEN, NULL_LEN,
};

verus! {

/// Encode a value to its wire bytes, without an outer length prefix.
pub fn encode_value(v: &CqlValue) -> (r: Result<Vec<u8>, MarshalError>)
    ensures
        match r {
            Ok(bytes) => can_encode(v@) && bytes@ == spec_encode(v@),
            Err(e) => e == MarshalError::ValueTooLarge && !can_encode(v@),
        },
    decreases v, 0nat,
{
    match v {
        CqlValue::Boolean(b) => {
            let mut out: Vec<u8> = Vec::new();
            out.push(if *b {
                1
            } else {
                0
            });
            Ok(out)
        },
        CqlValue::Blob(b) => Ok(slice_to_vec(b.as_slice())),
        CqlValue::Counter(c) => Ok(be_u64(c.0 as u64, 8)),
        CqlValue::Date(d) => Ok(be_u64(*d as u64, 4)),
        CqlValue::Decimal { scale, unscaled } => {
            let mut out: Vec<u8> = be_u64((*scale as u32) as u64, 4);
            let mut tail: Vec<u8> = slice_to_vec(unscaled.as_slice());
            out.append(&mut tail);
            proof {
                assert(out@ =~= spec_encode(v@));
            }
            Ok(out)
        },
        CqlValue::Double(bits) => Ok(be_u64(*bits, 8)),
        CqlValue::Duration(d) => {
            let mut out: Vec<u8> = Vec::new();
            vint_encode(&mut out, zigzag_of(d.months as i64));
            vint_encode(&mut out, zigzag_of(d.days as i64));
            vint_encode(&mut out, zigzag_of(d.nanoseconds));
            proof {
                assert(out@ =~= spec_encode(v@));
            }
            Ok(out)
        },
        CqlValue::Float(bits) => Ok(be_u64(*bits as u64, 4)),
        CqlValue::Int(x) => Ok(be_u64((*x as u32) as u64, 4)),
        CqlValue::BigInt(x) => Ok(be_u64(*x as u64, 8)),
        CqlValue::Text(b) => Ok(slice_to_vec(b.as_slice())),
        CqlValue::Timestamp(ts) => Ok(be_u64(ts.0 as u64, 8)),
        CqlValue::Inet(b) => Ok(slice_to_vec(b.as_slice())),
        CqlValue::SmallInt(x) => Ok(be_u64((*x as u16) as u64, 2)),
        CqlValue::TinyInt(x) => {
            let mut out: Vec<u8> = Vec::new();
            out.push(*x as u8);
            Ok(out)
        },
        CqlValue::Time(t) => Ok(be_u64(t.0 as u64, 8)),
        CqlValue::Uuid(msb, lsb) => {
            let mut out: Vec<u8> = be_u64(*msb, 8);
            let mut tail: Vec<u8> = be_u64(*lsb, 8);
            out.append(&mut tail);
            proof {
                assert(out@ =~= spec_encode(v@));
            }
            Ok(out)
        },
        CqlValue::Varint(b) => Ok(slice_to_vec(b.as_slice())),
        CqlValue::List(vs) => {
            proof {
                lemma_views_of(vs@);
            }
            if (vs.len() as u64) > (NULL_LEN as u64) {
                return Err(MarshalError::ValueTooLarge);
            }
            let mut out: Vec<u8> = be_u64(vs.len() as u64, 4);
            match encode_elems(vs, 0) {
                Ok(mut tail) => {
                    out.append(&mut tail);
                    proof {
                        assert(views_of(vs@).skip(0) =~= views_of(vs@));
                        assert(out@ =~= spec_encode(v@));
                    }
                    Ok(out)
                },
                Err(e) => {
                    proof {
                        assert(views_of(vs@).skip(0) =~= views_of(vs@));
                    }
                    Err(e)
                },
            }
        },
        CqlValue::SetOf(vs) => {
            proof {
                lemma_views_of(vs@);
            }
            if (vs.len() as u64) > (NULL_LEN as u64) {
                return Err(MarshalError::ValueTooLarge);
            }
            let mut out: Vec<u8> = be_u64(vs.len() as u64, 4);
            match encode_elems(vs, 0) {
                Ok(mut tail) => {
                    out.append(&mut tail);
                    proof {
                        assert(views_of(vs@).skip(0) =~= views_of(vs@));
                        assert(out@ =~= spec_encode(v@));
                    }
                    Ok(out)
                },
                Err(e) => {
                    proof {
                        assert(views_of(vs@).skip(0) =~= views_of(vs@));
                    }
                    Err(e)
                },
            }
        },
        CqlValue::MapOf(ps) => {
            proof {
                lemma_pair_views_of(ps@);
            }
            if (ps.len() as u64) > (NULL_LEN as u64) {
                return Err(MarshalError::ValueTooLarge);
            }
            let mut out: Vec<u8> = be_u64(ps.len() as u64, 4);
            match encode_pairs(ps, 0) {
                Ok(mut tail) => {
                    out.append(&mut tail);
                    proof {
                        assert(pair_views_of(ps@).skip(0) =~= pair_views_of(ps@));
                        assert(out@ =~= spec_encode(v@));
                    }
                    Ok(out)
                },
                Err(e) => {
                    proof {
                        assert(pair_views_of(ps@).skip(0) =~= pair_views_of(ps@));
                    }
                    Err(e)
                },
            }
        },
        CqlValue::Tuple(fs) => {
            let r = encode_fields(fs, 0);
            proof {
                assert(field_views_of(fs@).skip(0) =~= field_views_of(fs@));
            }
            r
        },
        CqlValue::UserDefinedType(fs) => {
            let r = encode_fields(fs, 0);
            proof {
                assert(field_views_of(fs@).skip(0) =~= field_views_of(fs@));
            }
            r
        },
    }
}

/// Encode the elements of a collection from position `i` on, each with
/// its 4-byte length prefix.
fn encode_elems(vs: &Vec<CqlValue>, i: usize) -> (r: Result<Vec<u8>, MarshalError>)
    requires
        i <= vs@.len(),
    ensures
        match r {
            Ok(bytes) => can_encode_elems(views_of(vs@).skip(i as int)) && bytes@
                == spec_encode_elems(views_of(vs@).skip(i as int)),
            Err(e) => e == MarshalError::ValueTooLarge && !can_encode_elems(
                views_of(vs@).skip(i as int),
            ),
        },
    decreases vs@, (vs@.len() - i as int),
{
    proof {
        lemma_views_of(vs@);
    }
    let ghost tail = views_of(vs@).skip(i as int);
    if i == vs.len() {
        proof {
            assert(tail =~= Seq::<crate::value::CqlModel>::empty());
        }
        Ok(Vec::new())
    } else {
        proof {
            assert(tail[0] == vs@[i as int]@);
            assert(tail.drop_first() =~= views_of(vs@).skip(i as int + 1));
        }
        match encode_value(&vs[i]) {
            Ok(head) => {
                if (head.len() as u64) > (MAX_FRAME_LEN as u64) {
                    return Err(MarshalError::ValueTooLarge);
                }
                let mut out: Vec<u8> = be_u64(head.len() as u64, 4);
                let mut head2: Vec<u8> = head;
                out.append(&mut head2);
                match encode_elems(vs, i + 1) {
                    Ok(mut rest) => {
                        out.append(&mut rest);
                        proof {
                            assert(out@ =~= spec_encode_elems(tail));
                        }
                        Ok(out)
                    },
                    Err(e) => Err(e),
                }
            },
            Err(e) => Err(e),
        }
    }
}

/// Encode the entries of a map from position `i` on: length-prefixed key,
/// then length-prefixed value.
fn encode_pairs(ps: &Vec<(CqlValue, CqlValue)>, i: usize) -> (r: Result<Vec<u8>, MarshalError>)
    requires
        i <= ps@.len(),
    ensures
        match r {
            Ok(bytes) => can_encode_pairs(pair_views_of(ps@).skip(i as int)) && bytes@
                == spec_encode_pairs(pair_views_of(ps@).skip(i as int)),
            Err(e) => e == MarshalError::ValueTooLarge && !can_encode_pairs(
                pair_views_of(ps@).skip(i as int),
            ),
        },
    decreases ps@, (ps@.len() - i as int),
{
    proof {
        lemma_pair_views_of(ps@);
    }
    let ghost tail = pair_views_of(ps@).skip(i as int);
    if i == ps.len() {
        proof {
            assert(tail =~= Seq::<(crate::value::CqlModel, crate::value::CqlModel)>::empty());
        }
        Ok(Vec::new())
    } else {
        proof {
            assert(tail[0] == (ps@[i as int].0@, ps@[i as int].1@));
            assert(tail.drop_first() =~= pair_views_of(ps@).skip(i as int + 1));
        }
        match encode_value(&ps[i].0) {
            Ok(kbytes) => {
                if (kbytes.len() as u64) > (MAX_FRAME_LEN as u64) {
                    return Err(MarshalError::ValueTooLarge);
                }
                let mut out: Vec<u8> = be_u64(kbytes.len() as u64, 4);
                let mut kb: Vec<u8> = kbytes;
                out.append(&mut kb);
                match encode_value(&ps[i].1) {
                    Ok(wbytes) => {
                        if (wbytes.len() as u64) > (MAX_FRAME_LEN as u64) {
                            return Err(MarshalError::ValueTooLarge);
                        }
                        let mut wlen: Vec<u8> = be_u64(wbytes.len() as u64, 4);
                        out.append(&mut wlen);
                        let mut wb: Vec<u8> = wbytes;
                        out.append(&mut wb);
                        match encode_pairs(ps, i + 1) {
                            Ok(mut rest) => {
                                out.append(&mut rest);
                                proof {
                                    assert(out@ =~= spec_encode_pairs(tail));
                                }
                                Ok(out)
                            },
                            Err(e) => Err(e),
                        }
                    },
                    Err(e) => Err(e),
                }
            },
            Err(e) => Err(e),
        }
    }
}

/// Encode tuple or user-defined fields from position `i` on: a present
/// field is length-prefixed, a null field is the four sentinel bytes.
fn encode_fields(fs: &Vec<Option<CqlValue>>, i: usize) -> (r: Result<Vec<u8>, MarshalError>)
    requires
        i <= fs@.len(),
    ensures
        match r {
            Ok(bytes) => can_encode_fields(field_views_of(fs@).skip(i as int)) && bytes@
                == spec_encode_fields(field_views_of(fs@).skip(i as int)),
            Err(e) => e == MarshalError::ValueTooLarge && !can_encode_fields(
                field_views_of(fs@).skip(i as int),
            ),
        },
    decreases fs@, (fs@.len() - i as int),
{
    proof {
        lemma_field_views_of(fs@);
    }
    let ghost tail = field_views_of(fs@).skip(i as int);
    if i == fs.len() {
        proof {
            assert(tail =~= Seq::<Option<crate::value::CqlModel>>::empty());
        }
        Ok(Vec::new())
    } else {
        proof {
            assert(tail.drop_first() =~= field_views_of(fs@).skip(i as int + 1));
        }
        match &fs[i] {
            Option::Some(v) => {
                proof {
                    assert(tail[0] == Option::Some(fs@[i as int]->Some_0@));
                }
                match encode_value(v) {
                    Ok(head) => {
                        if (head.len() as u64) > (MAX_FRAME_LEN as u64) {
                            return Err(MarshalError::ValueTooLarge);
                        }
                        let mut out: Vec<u8> = be_u64(head.len() as u64, 4);
                        let mut head2: Vec<u8> = head;
                        out.append(&mut head2);
                        match encode_fields(fs, i + 1) {
                            Ok(mut rest) => {
                                out.append(&mut rest);
                                proof {
                                    assert(out@ =~= spec_encode_fields(tail));
                                }
                                Ok(out)
                            },
                            Err(e) => Err(e),
                        }
                    },
                    Err(e) => Err(e),
                }
            },
            Option::None => {
                proof {
                    assert(tail[0] == Option::<crate::value::CqlModel>::None);
                }
                let mut out: Vec<u8> = be_u64(NULL_LEN as u64, 4);
                match encode_fields(fs, i + 1) {
                    Ok(mut rest) => {
                        out.append(&mut rest);
                        proof {
                            assert(out@ =~= spec_encode_fields(tail));
                        }
                        Ok(out)
                    },
                    Err(e) => Err(e),
                }
            },
        }
    }
}

} // verus!

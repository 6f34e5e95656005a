//! Native value model: one variant per supported logical database type.
//! `CqlValue` is the executable value; `CqlModel` is its mathematical view,
//! with byte strings and element lists as sequences, and is what the codec
//! specifications and proofs speak about.

use vstd::prelude::*;
use crate::column_type::ColumnType;

verus! {

/// Counter column value: a 64-bit signed count.
#[derive(Debug, Clone, Copy, PartialEq, Eq, Structural)]
pub struct Counter(pub i64);

/// Duration column value: three independently signed components.
#[derive(Debug, Clone, Copy, PartialEq, Eq, Structural)]
pub struct CqlDuration {
    pub months: i32,
    pub days: i32,
    pub nanoseconds: i64,
}

/// Timestamp column value: milliseconds since the Unix epoch.
#[derive(Debug, Clone, Copy, PartialEq, Eq, Structural)]
pub struct Timestamp(pub i64);

/// Time column value: nanoseconds within a day.
#[derive(Debug, Clone, Copy, PartialEq, Eq, Structural)]
pub struct Time(pub i64);

/// A value of some column type, as plain in-memory data.
///
/// `Float` and `Double` hold the raw IEEE-754 bit pattern of the wire
/// encoding; the codec moves the bits unchanged. `Text` holds the UTF-8
/// payload bytes; `Varint` holds a big-endian two's-complement integer;
/// `Decimal` holds such an integer together with a 32-bit scale; `Date`
/// holds the unsigned day number with the epoch at `1 << 31`; `Inet` holds
/// the 4 or 16 address bytes.
#[derive(Debug, PartialEq)]
pub enum CqlValue {
    Boolean(bool),
    Blob(Vec<u8>),
    Counter(Counter),
    Date(u32),
    Decimal { scale: i32, unscaled: Vec<u8> },
    Double(u64),
    Duration(CqlDuration),
    Float(u32),
    Int(i32),
    BigInt(i64),
    Text(Vec<u8>),
    Timestamp(Timestamp),
    Inet(Vec<u8>),
    SmallInt(i16),
    TinyInt(i8),
    Time(Time),
    Uuid(u64, u64),
    Varint(Vec<u8>),
    List(Vec<CqlValue>),
    SetOf(Vec<CqlValue>),
    MapOf(Vec<(CqlValue, CqlValue)>),
    Tuple(Vec<Option<CqlValue>>),
    UserDefinedType(Vec<Option<CqlValue>>),
}

/// The mathematical view of a `CqlValue`.
#[verifier::ext_equal]
pub enum CqlModel {
    Boolean(bool),
    Blob(Seq<u8>),
    Counter(i64),
    Date(u32),
    Decimal { scale: i32, unscaled: Seq<u8> },
    Double(u64),
    Duration { months: i32, days: i32, nanoseconds: i64 },
    Float(u32),
    Int(i32),
    BigInt(i64),
    Text(Seq<u8>),
    Timestamp(i64),
    Inet(Seq<u8>),
    SmallInt(i16),
    TinyInt(i8),
    Time(i64),
    Uuid(u64, u64),
    Varint(Seq<u8>),
    List(Seq<CqlModel>),
    SetOf(Seq<CqlModel>),
    MapOf(Seq<(CqlModel, CqlModel)>),
    Tuple(Seq<Option<CqlModel>>),
    UserDefinedType(Seq<Option<CqlModel>>),
}

/// Views of the elements of a collection.
pub open spec fn views_of(s: Seq<CqlValue>) -> Seq<CqlModel>
    decreases s,
{
    if s.len() == 0 {
        Seq::empty()
    } else {
        seq![s[0]@] + views_of(s.drop_first())
    }
}

/// Views of the entries of a map.
pub open spec fn pair_views_of(s: Seq<(CqlValue, CqlValue)>) -> Seq<(CqlModel, CqlModel)>
    decreases s,
{
    if s.len() == 0 {
        Seq::empty()
    } else {
        seq![(s[0].0@, s[0].1@)] + pair_views_of(s.drop_first())
    }
}

/// Views of the fields of a tuple or user-defined value.
pub open spec fn field_views_of(s: Seq<Option<CqlValue>>) -> Seq<Option<CqlModel>>
    decreases s,
{
    if s.len() == 0 {
        Seq::empty()
    } else {
        (match s[0] {
            Option::Some(v) => seq![Option::Some(v@)],
            Option::None => seq![Option::<CqlModel>::None],
        }) + field_views_of(s.drop_first())
    }
}

impl View for CqlValue {
    type V = CqlModel;

    open spec fn view(&self) -> CqlModel
        decreases self,
    {
        match self {
            CqlValue::Boolean(b) => CqlModel::Boolean(*b),
            CqlValue::Blob(b) => CqlModel::Blob(b@),
            CqlValue::Counter(c) => CqlModel::Counter(c.0),
            CqlValue::Date(d) => CqlModel::Date(*d),
            CqlValue::Decimal { scale, unscaled } => CqlModel::Decimal {
                scale: *scale,
                unscaled: unscaled@,
            },
            CqlValue::Double(bits) => CqlModel::Double(*bits),
            CqlValue::Duration(d) => CqlModel::Duration {
                months: d.months,
                days: d.days,
                nanoseconds: d.nanoseconds,
            },
            CqlValue::Float(bits) => CqlModel::Float(*bits),
            CqlValue::Int(x) => CqlModel::Int(*x),
            CqlValue::BigInt(x) => CqlModel::BigInt(*x),
            CqlValue::Text(b) => CqlModel::Text(b@),
            CqlValue::Timestamp(ts) => CqlModel::Timestamp(ts.0),
            CqlValue::Inet(b) => CqlModel::Inet(b@),
            CqlValue::SmallInt(x) => CqlModel::SmallInt(*x),
            CqlValue::TinyInt(x) => CqlModel::TinyInt(*x),
            CqlValue::Time(t) => CqlModel::Time(t.0),
            CqlValue::Uuid(msb, lsb) => CqlModel::Uuid(*msb, *lsb),
            CqlValue::Varint(b) => CqlModel::Varint(b@),
            CqlValue::List(vs) => CqlModel::List(views_of(vs@)),
            CqlValue::SetOf(vs) => CqlModel::SetOf(views_of(vs@)),
            CqlValue::MapOf(ps) => CqlModel::MapOf(pair_views_of(ps@)),
            CqlValue::Tuple(fs) => CqlModel::Tuple(field_views_of(fs@)),
            CqlValue::UserDefinedType(fs) => CqlModel::UserDefinedType(field_views_of(fs@)),
        }
    }
}

pub proof fn lemma_views_of(s: Seq<CqlValue>)
    ensures
        views_of(s).len() == s.len(),
        forall|i: int| 0 <= i < s.len() ==> views_of(s)[i] == #[trigger] s[i]@,
    decreases s,
{
    if s.len() > 0 {
        lemma_views_of(s.drop_first());
        assert(views_of(s) == seq![s[0]@] + views_of(s.drop_first()));
        assert(forall|i: int|
            1 <= i < s.len() ==> views_of(s)[i] == views_of(s.drop_first())[i - 1]);
        assert(forall|i: int| 1 <= i < s.len() ==> s.drop_first()[i - 1] == #[trigger] s[i]);
    }
}

pub proof fn lemma_pair_views_of(s: Seq<(CqlValue, CqlValue)>)
    ensures
        pair_views_of(s).len() == s.len(),
        forall|i: int| 0 <= i < s.len() ==> pair_views_of(s)[i] == (#[trigger] s[i].0@, s[i].1@),
    decreases s,
{
    if s.len() > 0 {
        lemma_pair_views_of(s.drop_first());
        assert(pair_views_of(s) == seq![(s[0].0@, s[0].1@)] + pair_views_of(s.drop_first()));
        assert(forall|i: int|
            1 <= i < s.len() ==> pair_views_of(s)[i] == pair_views_of(s.drop_first())[i - 1]);
        assert(forall|i: int| 1 <= i < s.len() ==> s.drop_first()[i - 1] == #[trigger] s[i]);
    }
}

pub proof fn lemma_field_views_of(s: Seq<Option<CqlValue>>)
    ensures
        field_views_of(s).len() == s.len(),
        forall|i: int|
            0 <= i < s.len() ==> field_views_of(s)[i] == (match #[trigger] s[i] {
                Option::Some(v) => Option::Some(v@),
                Option::None => Option::None,
            }),
    decreases s,
{
    if s.len() > 0 {
        lemma_field_views_of(s.drop_first());
        assert(field_views_of(s) == (match s[0] {
            Option::Some(v) => seq![Option::Some(v@)],
            Option::None => seq![Option::<CqlModel>::None],
        }) + field_views_of(s.drop_first()));
        assert(forall|i: int|
            1 <= i < s.len() ==> field_views_of(s)[i] == field_views_of(s.drop_first())[i - 1]);
        assert(forall|i: int| 1 <= i < s.len() ==> s.drop_first()[i - 1] == #[trigger] s[i]);
    }
}

/// Does the value have the shape that the descriptor asks for?
/// This is the well-formedness relation between a native value and its
/// Column Type Descriptor; encode is specified on exactly these pairs.
pub open spec fn valid_value(v: CqlModel, t: ColumnType) -> bool
    decreases v,
{
    match (v, t) {
        (CqlModel::Boolean(_), ColumnType::Boolean) => true,
        (CqlModel::Blob(_), ColumnType::Blob) => true,
        (CqlModel::Counter(_), ColumnType::Counter) => true,
        (CqlModel::Date(_), ColumnType::Date) => true,
        (CqlModel::Decimal { .. }, ColumnType::Decimal) => true,
        (CqlModel::Double(_), ColumnType::Double) => true,
        (CqlModel::Duration { .. }, ColumnType::Duration) => true,
        (CqlModel::Float(_), ColumnType::Float) => true,
        (CqlModel::Int(_), ColumnType::Int) => true,
        (CqlModel::BigInt(_), ColumnType::BigInt) => true,
        (CqlModel::Text(_), ColumnType::Text) => true,
        (CqlModel::Timestamp(_), ColumnType::Timestamp) => true,
        (CqlModel::Inet(b), ColumnType::Inet) => b.len() == 4 || b.len() == 16,
        (CqlModel::SmallInt(_), ColumnType::SmallInt) => true,
        (CqlModel::TinyInt(_), ColumnType::TinyInt) => true,
        (CqlModel::Time(_), ColumnType::Time) => true,
        (CqlModel::Uuid(_, _), ColumnType::Uuid) => true,
        (CqlModel::Varint(_), ColumnType::Varint) => true,
        (CqlModel::List(vs), ColumnType::List(e)) => valid_elems(vs, *e),
        (CqlModel::SetOf(vs), ColumnType::SetOf(e)) => valid_elems(vs, *e),
        (CqlModel::MapOf(ps), ColumnType::MapOf(k, w)) => valid_pairs(ps, *k, *w),
        (CqlModel::Tuple(fs), ColumnType::Tuple(ts)) => valid_fields(fs, ts@),
        (CqlModel::UserDefinedType(fs), ColumnType::UserDefinedType { field_types, .. }) => {
            valid_udt_fields(fs, field_types@)
        },
        _ => false,
    }
}

/// Each element of a collection is valid for the element type.
pub open spec fn valid_elems(vs: Seq<CqlModel>, t: ColumnType) -> bool
    decreases vs,
{
    if vs.len() == 0 {
        true
    } else {
        valid_value(vs[0], t) && valid_elems(vs.drop_first(), t)
    }
}

/// Each key and each value of a map entry sequence is valid.
pub open spec fn valid_pairs(ps: Seq<(CqlModel, CqlModel)>, kt: ColumnType, vt: ColumnType) -> bool
    decreases ps,
{
    if ps.len() == 0 {
        true
    } else {
        valid_value(ps[0].0, kt) && valid_value(ps[0].1, vt) && valid_pairs(ps.drop_first(), kt, vt)
    }
}

/// Tuple fields match the declared field types positionally; a `None`
/// field is the null field of any type.
pub open spec fn valid_fields(fs: Seq<Option<CqlModel>>, ts: Seq<ColumnType>) -> bool
    decreases fs,
{
    if fs.len() != ts.len() {
        false
    } else if fs.len() == 0 {
        true
    } else {
        (match fs[0] {
            Option::Some(v) => valid_value(v, ts[0]),
            Option::None => true,
        }) && valid_fields(fs.drop_first(), ts.drop_first())
    }
}

/// User-defined-type fields match the declared fields positionally.
pub open spec fn valid_udt_fields(fs: Seq<Option<CqlModel>>, ts: Seq<(String, ColumnType)>) -> bool
    decreases fs,
{
    if fs.len() != ts.len() {
        false
    } else if fs.len() == 0 {
        true
    } else {
        (match fs[0] {
            Option::Some(v) => valid_value(v, ts[0].1),
            Option::None => true,
        }) && valid_udt_fields(fs.drop_first(), ts.drop_first())
    }
}

} // verus!


//! Column Type Descriptor: a closed, finite, possibly-recursive tag that
//! describes a value's logical database type and drives the binary codec.

use vstd::prelude::*;

verus! {

/// Logical database type of a column value. The descriptor tree is finite and
/// acyclic by construction (Rust values of this type are finite trees).
#[derive(Debug, PartialEq)]
pub enum ColumnType {
    Boolean,
    Blob,
    Counter,
    Date,
    Decimal,
    Double,
    Duration,
    Float,
    Int,
    BigInt,
    Text,
    Timestamp,
    Inet,
    SmallInt,
    TinyInt,
    Time,
    Uuid,
    Varint,
    List(Box<ColumnType>),
    SetOf(Box<ColumnType>),
    MapOf(Box<ColumnType>, Box<ColumnType>),
    Tuple(Vec<ColumnType>),
    UserDefinedType { keyspace: String, field_types: Vec<(String, ColumnType)> },
}

/// Larger of two naturals.
pub open spec fn nat_max(a: nat, b: nat) -> nat {
    if a > b {
        a
    } else {
        b
    }
}

/// Nesting depth of a descriptor; the termination measure for every
/// function that recurses over the descriptor tree.
pub open spec fn ct_height(t: ColumnType) -> nat
    decreases t,
{
    match t {
        ColumnType::List(e) => 1 + ct_height(*e),
        ColumnType::SetOf(e) => 1 + ct_height(*e),
        ColumnType::MapOf(k, v) => 1 + nat_max(ct_height(*k), ct_height(*v)),
        ColumnType::Tuple(ts) => 1 + cts_height(ts@),
        ColumnType::UserDefinedType { field_types, .. } => 1 + fts_height(field_types@),
        _ => 0,
    }
}

/// Largest height among a sequence of descriptors.
pub open spec fn cts_height(ts: Seq<ColumnType>) -> nat
    decreases ts,
{
    if ts.len() == 0 {
        0
    } else {
        nat_max(ct_height(ts[0]), cts_height(ts.drop_first()))
    }
}

/// Largest height among the declared fields of a user-defined type.
pub open spec fn fts_height(ts: Seq<(String, ColumnType)>) -> nat
    decreases ts,
{
    if ts.len() == 0 {
        0
    } else {
        nat_max(ct_height(ts[0].1), fts_height(ts.drop_first()))
    }
}

/// Every element of a descriptor sequence is bounded by the sequence's height.
pub proof fn lemma_cts_height_bound(ts: Seq<ColumnType>, i: int)
    requires
        0 <= i < ts.len(),
    ensures
        ct_height(ts[i]) <= cts_height(ts),
    decreases ts,
{
    if i > 0 {
        lemma_cts_height_bound(ts.drop_first(), i - 1);
        assert(ts.drop_first()[i - 1] == ts[i]);
    }
}

/// Every field type of a user-defined descriptor is bounded by the fields' height.
pub proof fn lemma_fts_height_bound(ts: Seq<(String, ColumnType)>, i: int)
    requires
        0 <= i < ts.len(),
    ensures
        ct_height(ts[i].1) <= fts_height(ts),
    decreases ts,
{
    if i > 0 {
        lemma_fts_height_bound(ts.drop_first(), i - 1);
        assert(ts.drop_first()[i - 1] == ts[i]);
    }
}

} // verus!

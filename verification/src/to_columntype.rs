//! Derivation of a Column Type Descriptor from a native type: a pure,
//! statically fixed mapping, one descriptor per supported type.

use vstd::prelude::*;
use crate::column_type::ColumnType;
use crate::value::{Counter, CqlDuration, Time, Timestamp};

verus! {

/// A native type's Column Type Descriptor, fixed at definition time.
pub trait ToColumnType {
    /// The descriptor as a specification value.
    spec fn column_type_spec() -> ColumnType;

    /// The descriptor.
    fn to_column_type() -> (r: ColumnType)
        ensures
            r == Self::column_type_spec(),
    ;
}

impl ToColumnType for bool {
    open spec fn column_type_spec() -> ColumnType {
        ColumnType::Boolean
    }

    fn to_column_type() -> ColumnType {
        ColumnType::Boolean
    }
}

impl ToColumnType for Vec<u8> {
    open spec fn column_type_spec() -> ColumnType {
        ColumnType::Blob
    }

    fn to_column_type() -> ColumnType {
        ColumnType::Blob
    }
}

impl ToColumnType for Counter {
    open spec fn column_type_spec() -> ColumnType {
        ColumnType::Counter
    }

    fn to_column_type() -> ColumnType {
        ColumnType::Counter
    }
}

impl ToColumnType for CqlDuration {
    open spec fn column_type_spec() -> ColumnType {
        ColumnType::Duration
    }

    fn to_column_type() -> ColumnType {
        ColumnType::Duration
    }
}

impl ToColumnType for i32 {
    open spec fn column_type_spec() -> ColumnType {
        ColumnType::Int
    }

    fn to_column_type() -> ColumnType {
        ColumnType::Int
    }
}

impl ToColumnType for i64 {
    open spec fn column_type_spec() -> ColumnType {
        ColumnType::BigInt
    }

    fn to_column_type() -> ColumnType {
        ColumnType::BigInt
    }
}

impl ToColumnType for String {
    open spec fn column_type_spec() -> ColumnType {
        ColumnType::Text
    }

    fn to_column_type() -> ColumnType {
        ColumnType::Text
    }
}

impl ToColumnType for Timestamp {
    open spec fn column_type_spec() -> ColumnType {
        ColumnType::Timestamp
    }

    fn to_column_type() -> ColumnType {
        ColumnType::Timestamp
    }
}

impl ToColumnType for i16 {
    open spec fn column_type_spec() -> ColumnType {
        ColumnType::SmallInt
    }

    fn to_column_type() -> ColumnType {
        ColumnType::SmallInt
    }
}

impl ToColumnType for i8 {
    open spec fn column_type_spec() -> ColumnType {
        ColumnType::TinyInt
    }

    fn to_column_type() -> ColumnType {
        ColumnType::TinyInt
    }
}

impl ToColumnType for Time {
    open spec fn column_type_spec() -> ColumnType {
        ColumnType::Time
    }

    fn to_column_type() -> ColumnType {
        ColumnType::Time
    }
}

/// An optional value has no wire tag of its own: its descriptor is the
/// inner type's, and absence is expressed by the enclosing envelope.
impl<T: ToColumnType> ToColumnType for Option<T> {
    open spec fn column_type_spec() -> ColumnType {
        T::column_type_spec()
    }

    fn to_column_type() -> ColumnType {
        T::to_column_type()
    }
}

} // verus!

//! Buffered marshaling, transport to native: a present buffer's bytes
//! are decoded by the wire codec under the native type's descriptor and
//! converted to the native value; the null buffer and malformed bytes
//! are errors. The buffer is consumed — the call is its single release.

use vstd::prelude::*;
use vstd::utf8::{decode_utf8, valid_utf8};
use crate::column_type::ColumnType;
use crate::decode::decode_value;
use crate::errors::MarshalError;
use crate::to_columntype::ToColumnType;
use crate::to_wasmptr::ToWasmPtr;
use crate::value::{CqlModel, CqlValue, Counter, CqlDuration, Time, Timestamp};
use crate::wasmptr::WasmPtr;
use crate::wire::spec_decode;

verus! {

/// A native type readable back out of a Transport Buffer.
pub trait FromWasmPtr: ToWasmPtr + ToColumnType {
    /// Which decoded models a value of this type can stand for. Decoding
    /// under the type's own descriptor can still land outside — text
    /// bytes that are not UTF-8 have no `String`.
    spec fn accepts(m: CqlModel) -> bool;

    /// Decode a value of this type out of the buffer, consuming it.
    /// Fails with `MalformedValue` exactly on the null buffer, on bytes
    /// the codec rejects, and on a decoded model no value of this type
    /// stands for.
    fn from_wasmptr(p: WasmPtr) -> (r: Result<Self, MarshalError>)
        ensures
            match r {
                Ok(v) => {
                    &&& p@ is Some
                    &&& spec_decode(p@->Some_0, Self::column_type_spec()) == Option::Some(
                        v.cql_model(),
                    )
                    &&& Self::accepts(v.cql_model())
                },
                Err(e) => {
                    &&& e == MarshalError::MalformedValue
                    &&& match p@ {
                        Option::None => true,
                        Option::Some(bytes) => match spec_decode(
                            bytes,
                            Self::column_type_spec(),
                        ) {
                            Option::Some(m) => !Self::accepts(m),
                            Option::None => true,
                        },
                    }
                },
            },
    ;
}

/// Relies on `core::str::from_utf8`: it returns `Ok` exactly on valid
/// UTF-8, borrowing the text whose characters are the bytes' decoding.
#[verifier::external_body]
pub(crate) fn bytes_to_str(v: &[u8]) -> (r: Option<&str>)
    ensures
        match r {
            Option::Some(s) => valid_utf8(v@) && s@ == decode_utf8(v@),
            Option::None => !valid_utf8(v@),
        },
{
    core::str::from_utf8(v).ok()
}

impl FromWasmPtr for Vec<u8> {
    open spec fn accepts(m: CqlModel) -> bool {
        m is Blob
    }

    fn from_wasmptr(p: WasmPtr) -> (r: Result<Vec<u8>, MarshalError>) {
        match p.into_payload() {
            Option::None => Err(MarshalError::MalformedValue),
            Option::Some(bytes) => match decode_value(bytes.as_slice(), &ColumnType::Blob) {
                Ok(CqlValue::Blob(b)) => Ok(b),
                _ => Err(MarshalError::MalformedValue),
            },
        }
    }
}

impl FromWasmPtr for String {
    open spec fn accepts(m: CqlModel) -> bool {
        m is Text && valid_utf8(m->Text_0)
    }

    fn from_wasmptr(p: WasmPtr) -> (r: Result<String, MarshalError>) {
        match p.into_payload() {
            Option::None => Err(MarshalError::MalformedValue),
            Option::Some(bytes) => match bytes_to_str(bytes.as_slice()) {
                Option::Some(s) => {
                    proof {
                        vstd::utf8::decode_utf8_encode_utf8(bytes@);
                    }
                    Ok(s.to_owned())
                },
                Option::None => Err(MarshalError::MalformedValue),
            },
        }
    }
}

impl FromWasmPtr for Counter {
    open spec fn accepts(m: CqlModel) -> bool {
        m is Counter
    }

    fn from_wasmptr(p: WasmPtr) -> (r: Result<Counter, MarshalError>) {
        match p.into_payload() {
            Option::None => Err(MarshalError::MalformedValue),
            Option::Some(bytes) => match decode_value(bytes.as_slice(), &ColumnType::Counter) {
                Ok(CqlValue::Counter(c)) => Ok(c),
                _ => Err(MarshalError::MalformedValue),
            },
        }
    }
}

impl FromWasmPtr for CqlDuration {
    open spec fn accepts(m: CqlModel) -> bool {
        m is Duration
    }

    fn from_wasmptr(p: WasmPtr) -> (r: Result<CqlDuration, MarshalError>) {
        match p.into_payload() {
            Option::None => Err(MarshalError::MalformedValue),
            Option::Some(bytes) => match decode_value(bytes.as_slice(), &ColumnType::Duration) {
                Ok(CqlValue::Duration(d)) => Ok(d),
                _ => Err(MarshalError::MalformedValue),
            },
        }
    }
}

impl FromWasmPtr for Timestamp {
    open spec fn accepts(m: CqlModel) -> bool {
        m is Timestamp
    }

    fn from_wasmptr(p: WasmPtr) -> (r: Result<Timestamp, MarshalError>) {
        match p.into_payload() {
            Option::None => Err(MarshalError::MalformedValue),
            Option::Some(bytes) => match decode_value(bytes.as_slice(), &ColumnType::Timestamp) {
                Ok(CqlValue::Timestamp(ts)) => Ok(ts),
                _ => Err(MarshalError::MalformedValue),
            },
        }
    }
}

impl FromWasmPtr for Time {
    open spec fn accepts(m: CqlModel) -> bool {
        m is Time
    }

    fn from_wasmptr(p: WasmPtr) -> (r: Result<Time, MarshalError>) {
        match p.into_payload() {
            Option::None => Err(MarshalError::MalformedValue),
            Option::Some(bytes) => match decode_value(bytes.as_slice(), &ColumnType::Time) {
                Ok(CqlValue::Time(t)) => Ok(t),
                _ => Err(MarshalError::MalformedValue),
            },
        }
    }
}

} // verus!

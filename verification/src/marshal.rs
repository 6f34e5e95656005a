//! Type-directed marshaling dispatch: the seam between the wire codec
//! and the transport layer. A native value either travels as a raw
//! scalar register, or is encoded and carried in a freshly allocated
//! Transport Buffer; an absent value travels as the null literal. The
//! wire format's null-length sentinel and the transport's null buffer
//! are two different nulls, converted into one another exactly here.

use vstd::prelude::*;
use crate::column_type::ColumnType;
use crate::from_wasmptr::FromWasmPtr;
use crate::to_columntype::ToColumnType;
use crate::to_wasmptr::ToWasmPtr;
use crate::decode::decode_value;
use crate::encode::encode_value;
use crate::errors::MarshalError;
use crate::value::CqlValue;
use crate::wasmptr::WasmPtr;
use crate::wire::{can_encode, spec_decode, spec_encode, NULL_LEN};

verus! {

/// Version of the marshaling protocol an embedding host can check
/// before calling into a module.
pub const ABI_VERSION: u32 = 2;

/// How values of a column type cross the call boundary: in a 32-bit or
/// 64-bit integer register, in a floating-point register of either
/// width, or encoded inside a Transport Buffer.
#[derive(Debug, Clone, Copy, PartialEq, Eq, Structural)]
pub enum TransportShape {
    ScalarInt32,
    ScalarInt64,
    ScalarFloat32,
    ScalarFloat64,
    Buffered,
}

/// The fixed transport shape of each column type: the four register
/// types travel as scalars, everything else is buffered.
pub open spec fn spec_transport_shape(t: ColumnType) -> TransportShape {
    match t {
        ColumnType::Boolean => TransportShape::ScalarInt32,
        ColumnType::Int => TransportShape::ScalarInt32,
        ColumnType::SmallInt => TransportShape::ScalarInt32,
        ColumnType::TinyInt => TransportShape::ScalarInt32,
        ColumnType::BigInt => TransportShape::ScalarInt64,
        ColumnType::Float => TransportShape::ScalarFloat32,
        ColumnType::Double => TransportShape::ScalarFloat64,
        _ => TransportShape::Buffered,
    }
}

/// The registry entry for a column type: its transport shape, fixed at
/// definition time and the same for both directions.
pub fn transport_shape(t: &ColumnType) -> (r: TransportShape)
    ensures
        r == spec_transport_shape(*t),
{
    match t {
        ColumnType::Boolean => TransportShape::ScalarInt32,
        ColumnType::Int => TransportShape::ScalarInt32,
        ColumnType::SmallInt => TransportShape::ScalarInt32,
        ColumnType::TinyInt => TransportShape::ScalarInt32,
        ColumnType::BigInt => TransportShape::ScalarInt64,
        ColumnType::Float => TransportShape::ScalarFloat32,
        ColumnType::Double => TransportShape::ScalarFloat64,
        _ => TransportShape::Buffered,
    }
}

/// Buffered conversion, native to transport: `None` becomes the null
/// literal without touching the codec; a present value is encoded and
/// the payload moved into a fresh buffer sized to it. Fails with
/// `ValueTooLarge` exactly when a nested frame or the whole payload
/// would collide with the reserved sentinel; no buffer escapes a
/// failing call.
pub fn value_to_wasmptr(v: &Option<CqlValue>) -> (r: Result<WasmPtr, MarshalError>)
    ensures
        match v {
            Option::None => r is Ok && r->Ok_0@ is None,
            Option::Some(v) => match r {
                Ok(p) => {
                    &&& can_encode(v@)
                    &&& spec_encode(v@).len() < NULL_LEN
                    &&& p@ == Option::Some(spec_encode(v@))
                    &&& p.wf()
                },
                Err(e) => {
                    &&& e == MarshalError::ValueTooLarge
                    &&& (!can_encode(v@) || spec_encode(v@).len() >= NULL_LEN)
                },
            },
        },
{
    match v {
        Option::None => Ok(WasmPtr::null()),
        Option::Some(v) => {
            let bytes = match encode_value(v) {
                Ok(bytes) => bytes,
                Err(e) => {
                    return Err(e);
                },
            };
            match WasmPtr::from_payload(bytes) {
                Option::Some(p) => Ok(p),
                Option::None => Err(MarshalError::ValueTooLarge),
            }
        },
    }
}

/// Buffered conversion, transport to native: the null literal becomes
/// `None` without touching the codec; a present buffer's bytes are
/// decoded under the descriptor. Consumes the buffer — this call is its
/// single release, on success and on failure alike.
pub fn wasmptr_to_value(p: WasmPtr, t: &ColumnType) -> (r: Result<Option<CqlValue>, MarshalError>)
    ensures
        match r {
            Ok(opt) => match opt {
                Option::Some(v) => p@ is Some && spec_decode(p@->Some_0, *t) == Option::Some(v@),
                Option::None => p@ is None,
            },
            Err(e) => e == MarshalError::MalformedValue && p@ is Some && spec_decode(
                p@->Some_0,
                *t,
            ) is None,
        },
{
    match p.into_payload() {
        Option::None => Ok(Option::None),
        Option::Some(bytes) => match decode_value(bytes.as_slice(), t) {
            Ok(v) => Ok(Option::Some(v)),
            Err(e) => Err(e),
        },
    }
}

/// Typed buffered dispatch for an optional value: `None` becomes the
/// null buffer without touching the codec, `Some` the inner value's
/// encoding in a fresh buffer.
pub fn option_to_wasmptr<T: ToWasmPtr>(v: &Option<T>) -> (r: Result<WasmPtr, MarshalError>)
    ensures
        match v {
            Option::None => r is Ok && r->Ok_0@ is None,
            Option::Some(x) => match r {
                Ok(p) => {
                    &&& can_encode(x.cql_model())
                    &&& spec_encode(x.cql_model()).len() < NULL_LEN
                    &&& p@ == Option::Some(spec_encode(x.cql_model()))
                    &&& p.wf()
                },
                Err(e) => {
                    &&& e == MarshalError::ValueTooLarge
                    &&& (!can_encode(x.cql_model()) || spec_encode(x.cql_model()).len()
                        >= NULL_LEN)
                },
            },
        },
{
    match v {
        Option::None => Ok(WasmPtr::null()),
        Option::Some(x) => x.to_wasmptr(),
    }
}

/// Typed buffered dispatch back: the null buffer becomes `None` without
/// touching the codec; a present buffer must decode to a value of `T`.
/// Consumes the buffer either way.
pub fn option_from_wasmptr<T: FromWasmPtr>(p: WasmPtr) -> (r: Result<Option<T>, MarshalError>)
    ensures
        match r {
            Ok(o) => match o {
                Option::None => p@ is None,
                Option::Some(v) => {
                    &&& p@ is Some
                    &&& spec_decode(p@->Some_0, T::column_type_spec()) == Option::Some(
                        v.cql_model(),
                    )
                    &&& T::accepts(v.cql_model())
                },
            },
            Err(e) => {
                &&& e == MarshalError::MalformedValue
                &&& p@ is Some
                &&& match spec_decode(p@->Some_0, T::column_type_spec()) {
                    Option::Some(m) => !T::accepts(m),
                    Option::None => true,
                }
            },
        },
{
    if p.is_null() {
        Ok(Option::None)
    } else {
        match T::from_wasmptr(p) {
            Ok(v) => Ok(Option::Some(v)),
            Err(e) => Err(e),
        }
    }
}

} // verus!

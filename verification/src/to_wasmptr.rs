//! Buffered marshaling, native to transport: the value is encoded by
//! the wire codec and the payload moved into a freshly allocated
//! Transport Buffer sized to it.

use vstd::prelude::*;
use vstd::slice::slice_to_vec;
use crate::encode::encode_value;
use crate::errors::MarshalError;
use crate::value::{CqlModel, CqlValue, Counter, CqlDuration, Time, Timestamp};
use crate::wasmptr::WasmPtr;
use crate::wire::{can_encode, spec_encode, NULL_LEN};
use vstd::utf8::encode_utf8;

verus! {

/// A native type whose values travel as a Transport Buffer holding
/// their wire encoding.
pub trait ToWasmPtr where Self: Sized {
    /// The value as the codec's mathematical model.
    spec fn cql_model(&self) -> CqlModel;

    /// Encode `self` and move the payload into a fresh buffer. Fails
    /// with `ValueTooLarge` exactly when a nested frame or the whole
    /// payload would collide with the reserved sentinel.
    fn to_wasmptr(&self) -> (r: Result<WasmPtr, MarshalError>)
        ensures
            match r {
                Ok(p) => {
                    &&& can_encode(self.cql_model())
                    &&& spec_encode(self.cql_model()).len() < NULL_LEN
                    &&& p@ == Option::Some(spec_encode(self.cql_model()))
                    &&& p.wf()
                },
                Err(e) => {
                    &&& e == MarshalError::ValueTooLarge
                    &&& (!can_encode(self.cql_model()) || spec_encode(self.cql_model()).len()
                        >= NULL_LEN)
                },
            },
    ;
}

/// Encode a value and wrap the payload in a fresh buffer.
fn encode_to_ptr(v: &CqlValue) -> (r: Result<WasmPtr, MarshalError>)
    ensures
        match r {
            Ok(p) => {
                &&& can_encode(v@)
                &&& spec_encode(v@).len() < NULL_LEN
                &&& p@ == Option::Some(spec_encode(v@))
                &&& p.wf()
            },
            Err(e) => {
                &&& e == MarshalError::ValueTooLarge
                &&& (!can_encode(v@) || spec_encode(v@).len() >= NULL_LEN)
            },
        },
{
    let bytes = match encode_value(v) {
        Ok(bytes) => bytes,
        Err(e) => {
            return Err(e);
        },
    };
    match WasmPtr::from_payload(bytes) {
        Option::Some(p) => Ok(p),
        Option::None => Err(MarshalError::ValueTooLarge),
    }
}

impl ToWasmPtr for Vec<u8> {
    open spec fn cql_model(&self) -> CqlModel {
        CqlModel::Blob(self@)
    }

    fn to_wasmptr(&self) -> Result<WasmPtr, MarshalError> {
        encode_to_ptr(&CqlValue::Blob(slice_to_vec(self.as_slice())))
    }
}

impl ToWasmPtr for String {
    open spec fn cql_model(&self) -> CqlModel {
        CqlModel::Text(encode_utf8(self@))
    }

    fn to_wasmptr(&self) -> Result<WasmPtr, MarshalError> {
        encode_to_ptr(&CqlValue::Text(slice_to_vec(self.as_str().as_bytes())))
    }
}

impl ToWasmPtr for Counter {
    open spec fn cql_model(&self) -> CqlModel {
        CqlModel::Counter(self.0)
    }

    fn to_wasmptr(&self) -> Result<WasmPtr, MarshalError> {
        encode_to_ptr(&CqlValue::Counter(*self))
    }
}

impl ToWasmPtr for CqlDuration {
    open spec fn cql_model(&self) -> CqlModel {
        CqlModel::Duration {
            months: self.months,
            days: self.days,
            nanoseconds: self.nanoseconds,
        }
    }

    fn to_wasmptr(&self) -> Result<WasmPtr, MarshalError> {
        encode_to_ptr(&CqlValue::Duration(*self))
    }
}

impl ToWasmPtr for Timestamp {
    open spec fn cql_model(&self) -> CqlModel {
        CqlModel::Timestamp(self.0)
    }

    fn to_wasmptr(&self) -> Result<WasmPtr, MarshalError> {
        encode_to_ptr(&CqlValue::Timestamp(*self))
    }
}

impl ToWasmPtr for Time {
    open spec fn cql_model(&self) -> CqlModel {
        CqlModel::Time(self.0)
    }

    fn to_wasmptr(&self) -> Result<WasmPtr, MarshalError> {
        encode_to_ptr(&CqlValue::Time(*self))
    }
}

} // verus!

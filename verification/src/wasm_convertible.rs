//! Scalar marshaling: types whose values cross the call boundary as a
//! raw machine register rather than a Transport Buffer. The conversion
//! is a widening or narrowing cast, or the boolean/integer mapping, and
//! never allocates; the trait's contract carries the scalar round-trip
//! law for every implementation.

use vstd::prelude::*;

verus! {

/// A native type with a fixed transport representation. For the scalar
/// types here `WasmType` is the register type; `from_wasm` is total on
/// `wasm_in_range`, and `to_wasm` always lands in range and undoes
/// `from_wasm`.
pub trait WasmConvertible: Sized {
    type WasmType;

    /// Register values that represent some value of this type.
    spec fn wasm_in_range(w: Self::WasmType) -> bool;

    /// The register value of `self`.
    spec fn spec_to_wasm(&self) -> Self::WasmType;

    /// The value of a register.
    spec fn spec_from_wasm(w: Self::WasmType) -> Self;

    fn from_wasm(arg: Self::WasmType) -> (r: Self)
        requires
            Self::wasm_in_range(arg),
        ensures
            r == Self::spec_from_wasm(arg),
    ;

    fn to_wasm(&self) -> (r: Self::WasmType)
        ensures
            r == self.spec_to_wasm(),
            Self::wasm_in_range(r),
            Self::spec_from_wasm(r) == *self,
    ;
}

impl WasmConvertible for i32 {
    type WasmType = i32;

    open spec fn wasm_in_range(w: i32) -> bool {
        true
    }

    open spec fn spec_to_wasm(&self) -> i32 {
        *self
    }

    open spec fn spec_from_wasm(w: i32) -> i32 {
        w
    }

    fn from_wasm(arg: i32) -> i32 {
        arg
    }

    fn to_wasm(&self) -> i32 {
        *self
    }
}

impl WasmConvertible for i64 {
    type WasmType = i64;

    open spec fn wasm_in_range(w: i64) -> bool {
        true
    }

    open spec fn spec_to_wasm(&self) -> i64 {
        *self
    }

    open spec fn spec_from_wasm(w: i64) -> i64 {
        w
    }

    fn from_wasm(arg: i64) -> i64 {
        arg
    }

    fn to_wasm(&self) -> i64 {
        *self
    }
}

impl WasmConvertible for i8 {
    type WasmType = i32;

    open spec fn wasm_in_range(w: i32) -> bool {
        -0x80 <= w <= 0x7F
    }

    open spec fn spec_to_wasm(&self) -> i32 {
        *self as i32
    }

    open spec fn spec_from_wasm(w: i32) -> i8 {
        w as i8
    }

    fn from_wasm(arg: i32) -> (r: i8)
        ensures
            r == <i8 as WasmConvertible>::spec_from_wasm(arg),
    {
        arg as i8
    }

    fn to_wasm(&self) -> (r: i32)
        ensures
            r == self.spec_to_wasm(),
            <i8 as WasmConvertible>::wasm_in_range(r),
            <i8 as WasmConvertible>::spec_from_wasm(r) == *self,
    {
        proof {
            let x = *self;
            assert(-0x80 <= (x as i32) <= 0x7F && ((x as i32) as i8) == x) by (bit_vector);
        }
        *self as i32
    }
}

impl WasmConvertible for i16 {
    type WasmType = i32;

    open spec fn wasm_in_range(w: i32) -> bool {
        -0x8000 <= w <= 0x7FFF
    }

    open spec fn spec_to_wasm(&self) -> i32 {
        *self as i32
    }

    open spec fn spec_from_wasm(w: i32) -> i16 {
        w as i16
    }

    fn from_wasm(arg: i32) -> (r: i16)
        ensures
            r == <i16 as WasmConvertible>::spec_from_wasm(arg),
    {
        arg as i16
    }

    fn to_wasm(&self) -> (r: i32)
        ensures
            r == self.spec_to_wasm(),
            <i16 as WasmConvertible>::wasm_in_range(r),
            <i16 as WasmConvertible>::spec_from_wasm(r) == *self,
    {
        proof {
            let x = *self;
            assert(-0x8000 <= (x as i32) <= 0x7FFF && ((x as i32) as i16) == x) by (bit_vector);
        }
        *self as i32
    }
}

impl WasmConvertible for bool {
    type WasmType = i32;

    open spec fn wasm_in_range(w: i32) -> bool {
        true
    }

    open spec fn spec_to_wasm(&self) -> i32 {
        if *self {
            1
        } else {
            0
        }
    }

    open spec fn spec_from_wasm(w: i32) -> bool {
        w != 0
    }

    fn from_wasm(arg: i32) -> (r: bool)
        ensures
            r == <bool as WasmConvertible>::spec_from_wasm(arg),
    {
        arg != 0
    }

    fn to_wasm(&self) -> (r: i32)
        ensures
            r == self.spec_to_wasm(),
            <bool as WasmConvertible>::wasm_in_range(r),
            <bool as WasmConvertible>::spec_from_wasm(r) == *self,
    {
        if *self {
            1
        } else {
            0
        }
    }
}

} // verus!

//! Value-marshaling core for database user-defined functions running in an
//! isolated guest: the column-oriented binary codec, the transport-buffer
//! ownership model, and the type-directed dispatch between the two.

pub mod auth;
pub mod bytes_be;
pub mod column_type;
pub mod decode;
pub mod encode;
pub mod errors;
pub mod from_wasmptr;
pub mod laws;
pub mod marshal;
pub mod to_columntype;
pub mod to_wasmptr;
pub mod value;
pub mod vint;
pub mod wasm_convertible;
pub mod wasmptr;
pub mod wire;

pub use auth::{AuthChallenge, AuthResponse, AuthSuccess, Authenticate};
pub use column_type::ColumnType;
pub use decode::decode_value;
pub use encode::encode_value;
pub use errors::{BadKeyspaceName, MarshalError, OperationType, WriteType};
pub use from_wasmptr::FromWasmPtr;
pub use marshal::{
    option_from_wasmptr, option_to_wasmptr, transport_shape, value_to_wasmptr, wasmptr_to_value,
    TransportShape, ABI_VERSION,
};
pub use to_columntype::ToColumnType;
pub use to_wasmptr::ToWasmPtr;
pub use value::{Counter, CqlDuration, CqlModel, CqlValue, Time, Timestamp};
pub use wasm_convertible::WasmConvertible;
pub use wasmptr::WasmPtr;

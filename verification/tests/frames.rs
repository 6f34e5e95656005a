use scylla_udf::{
    transport_shape, AuthChallenge, AuthResponse, AuthSuccess, Authenticate, ColumnType,
    MarshalError, OperationType, TransportShape, WasmPtr, WriteType, ABI_VERSION,
};
use scylla_udf::{FromWasmPtr, ToWasmPtr};

#[test]
fn write_type_from_str() {
    let test_cases: [(&str, WriteType); 9] = [
        ("SIMPLE", WriteType::Simple),
        ("BATCH", WriteType::Batch),
        ("UNLOGGED_BATCH", WriteType::UnloggedBatch),
        ("COUNTER", WriteType::Counter),
        ("BATCH_LOG", WriteType::BatchLog),
        ("CAS", WriteType::Cas),
        ("VIEW", WriteType::View),
        ("CDC", WriteType::Cdc),
        ("SOMEOTHER", WriteType::Other("SOMEOTHER".to_string())),
    ];

    for (write_type_str, expected_write_type) in &test_cases {
        let write_type = WriteType::from_str_name(write_type_str);
        assert_eq!(write_type, *expected_write_type);
    }
}

#[test]
fn write_type_as_str() {
    assert_eq!(WriteType::Simple.as_str(), "SIMPLE");
    assert_eq!(WriteType::UnloggedBatch.as_str(), "UNLOGGED_BATCH");
    assert_eq!(WriteType::Other("SOMEOTHER".to_string()).as_str(), "SOMEOTHER");
}

#[test]
fn operation_type_from_byte() {
    assert_eq!(OperationType::from_byte(0), OperationType::Read);
    assert_eq!(OperationType::from_byte(1), OperationType::Write);
    assert_eq!(OperationType::from_byte(7), OperationType::Other(7));
}

#[test]
fn authenticate_deserialize() {
    let mut buf: Vec<u8> = vec![0, 5];
    buf.extend_from_slice(b"hello");
    let (msg, used) = Authenticate::deserialize(&buf).unwrap();
    assert_eq!(msg.authenticator_name, "hello");
    assert_eq!(used, 7);

    // Truncated name.
    assert_eq!(
        Authenticate::deserialize(&[0, 5, b'h']).unwrap_err(),
        MarshalError::MalformedValue
    );
}

#[test]
fn auth_success_deserialize() {
    let (msg, used) = AuthSuccess::deserialize(&[0, 0, 0, 2, 9, 8]).unwrap();
    assert_eq!(msg.success_message, Some(vec![9, 8]));
    assert_eq!(used, 6);

    // A negative length denotes the absent payload.
    let (msg, used) = AuthSuccess::deserialize(&[0xFF, 0xFF, 0xFF, 0xFF]).unwrap();
    assert_eq!(msg.success_message, None);
    assert_eq!(used, 4);
}

#[test]
fn auth_challenge_deserialize() {
    let (msg, used) = AuthChallenge::deserialize(&[0, 0, 0, 1, 42]).unwrap();
    assert_eq!(msg.authenticate_message, Some(vec![42]));
    assert_eq!(used, 5);

    assert_eq!(
        AuthChallenge::deserialize(&[0, 0, 0, 9, 1]).unwrap_err(),
        MarshalError::MalformedValue
    );
}

#[test]
fn auth_response_serialize() {
    let with_payload = AuthResponse { response: Some(vec![1, 2, 3]) };
    assert_eq!(with_payload.serialize().unwrap(), vec![0, 0, 0, 3, 1, 2, 3]);

    let absent = AuthResponse { response: None };
    assert_eq!(absent.serialize().unwrap(), vec![0xFF, 0xFF, 0xFF, 0xFF]);
}

#[test]
fn wasmptr_lifecycle() {
    let null = WasmPtr::null();
    assert!(null.is_null());
    assert_eq!(null.size(), None);
    assert!(null.as_slice().is_none());
    assert!(null.into_payload().is_none());

    let p = WasmPtr::with_size(3).unwrap();
    assert!(!p.is_null());
    assert_eq!(p.size(), Some(3));
    assert_eq!(p.as_slice().unwrap(), &[0, 0, 0]);
    assert_eq!(p.into_payload().unwrap(), vec![0, 0, 0]);

    // The reserved sentinel size denotes null and allocates nothing.
    assert!(WasmPtr::with_size(0xFFFF_FFFF).is_none());

    let q = WasmPtr::from_payload(vec![5, 6]).unwrap();
    assert_eq!(q.to_bytes().unwrap(), vec![5, 6]);
    assert_eq!(q.size(), Some(2));
}

#[test]
fn transport_shapes() {
    assert_eq!(transport_shape(&ColumnType::Int), TransportShape::ScalarInt32);
    assert_eq!(transport_shape(&ColumnType::Boolean), TransportShape::ScalarInt32);
    assert_eq!(transport_shape(&ColumnType::TinyInt), TransportShape::ScalarInt32);
    assert_eq!(transport_shape(&ColumnType::SmallInt), TransportShape::ScalarInt32);
    assert_eq!(transport_shape(&ColumnType::BigInt), TransportShape::ScalarInt64);
    assert_eq!(transport_shape(&ColumnType::Float), TransportShape::ScalarFloat32);
    assert_eq!(transport_shape(&ColumnType::Double), TransportShape::ScalarFloat64);
    assert_eq!(transport_shape(&ColumnType::Text), TransportShape::Buffered);
    assert_eq!(
        transport_shape(&ColumnType::List(Box::new(ColumnType::Int))),
        TransportShape::Buffered
    );
    assert_eq!(transport_shape(&ColumnType::Counter), TransportShape::Buffered);
    assert_eq!(ABI_VERSION, 2);
}

#[test]
fn string_rejects_invalid_utf8() {
    let ptr = WasmPtr::from_payload(vec![0xFF, 0xFE]).unwrap();
    assert_eq!(String::from_wasmptr(ptr).unwrap_err(), MarshalError::MalformedValue);
}

#[test]
fn null_buffer_is_no_value() {
    let null = WasmPtr::null();
    assert_eq!(String::from_wasmptr(null).unwrap_err(), MarshalError::MalformedValue);
}

#[test]
fn string_multibyte_round_trip() {
    let s = String::from("héllo ✓ 縮");
    let ptr = s.to_wasmptr().unwrap();
    assert_eq!(String::from_wasmptr(ptr).unwrap(), s);
}

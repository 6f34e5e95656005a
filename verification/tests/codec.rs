use scylla_udf::{
    decode_value, encode_value, value_to_wasmptr, wasmptr_to_value, ColumnType, CqlDuration,
    CqlValue, MarshalError, Counter, Time, Timestamp,
};

#[test]
fn golden_scalar_bytes() {
    assert_eq!(encode_value(&CqlValue::Boolean(true)).unwrap(), vec![1]);
    assert_eq!(encode_value(&CqlValue::Boolean(false)).unwrap(), vec![0]);
    assert_eq!(encode_value(&CqlValue::TinyInt(-1)).unwrap(), vec![0xFF]);
    assert_eq!(encode_value(&CqlValue::SmallInt(-2)).unwrap(), vec![0xFF, 0xFE]);
    assert_eq!(encode_value(&CqlValue::Int(1)).unwrap(), vec![0, 0, 0, 1]);
    assert_eq!(
        encode_value(&CqlValue::Int(-1)).unwrap(),
        vec![0xFF, 0xFF, 0xFF, 0xFF]
    );
    assert_eq!(
        encode_value(&CqlValue::BigInt(0x0102_0304_0506_0708)).unwrap(),
        vec![1, 2, 3, 4, 5, 6, 7, 8]
    );
    assert_eq!(
        encode_value(&CqlValue::Counter(Counter(13))).unwrap(),
        vec![0, 0, 0, 0, 0, 0, 0, 13]
    );
    assert_eq!(
        encode_value(&CqlValue::Date(1 << 31)).unwrap(),
        vec![0x80, 0, 0, 0]
    );
    assert_eq!(
        encode_value(&CqlValue::Timestamp(Timestamp(1))).unwrap(),
        vec![0, 0, 0, 0, 0, 0, 0, 1]
    );
    assert_eq!(
        encode_value(&CqlValue::Time(Time(2))).unwrap(),
        vec![0, 0, 0, 0, 0, 0, 0, 2]
    );
    assert_eq!(
        encode_value(&CqlValue::Text(String::from("abc").into_bytes())).unwrap(),
        vec![b'a', b'b', b'c']
    );
    assert_eq!(
        encode_value(&CqlValue::Uuid(0x0102030405060708, 0x090A0B0C0D0E0F10)).unwrap(),
        vec![1, 2, 3, 4, 5, 6, 7, 8, 9, 10, 11, 12, 13, 14, 15, 16]
    );
    assert_eq!(
        encode_value(&CqlValue::Decimal { scale: 2, unscaled: vec![0x07] }).unwrap(),
        vec![0, 0, 0, 2, 7]
    );
    // IEEE-754 bit patterns travel unchanged.
    assert_eq!(
        encode_value(&CqlValue::Float(1.5_f32.to_bits())).unwrap(),
        1.5_f32.to_be_bytes().to_vec()
    );
    assert_eq!(
        encode_value(&CqlValue::Double(1.5_f64.to_bits())).unwrap(),
        1.5_f64.to_be_bytes().to_vec()
    );
}

#[test]
fn golden_nested_list_bytes() {
    // A list of three inner lists of 32-bit integers: [[], [1, 2], [3]].
    // The codec rule nests at each level: outer count, then each inner
    // list length-prefixed, holding its own count and length-prefixed
    // elements.
    let v = CqlValue::List(vec![
        CqlValue::List(vec![]),
        CqlValue::List(vec![CqlValue::Int(1), CqlValue::Int(2)]),
        CqlValue::List(vec![CqlValue::Int(3)]),
    ]);
    let expected: Vec<u8> = vec![
        0, 0, 0, 3, // outer count
        0, 0, 0, 4, // first inner list: 4 bytes
        0, 0, 0, 0, //   its count: 0
        0, 0, 0, 20, // second inner list: 20 bytes
        0, 0, 0, 2, //   its count: 2
        0, 0, 0, 4, 0, 0, 0, 1, //   element 1
        0, 0, 0, 4, 0, 0, 0, 2, //   element 2
        0, 0, 0, 12, // third inner list: 12 bytes
        0, 0, 0, 1, //   its count: 1
        0, 0, 0, 4, 0, 0, 0, 3, //   element 3
    ];
    let bytes = encode_value(&v).unwrap();
    assert_eq!(bytes, expected);
    let t = ColumnType::List(Box::new(ColumnType::List(Box::new(ColumnType::Int))));
    assert_eq!(decode_value(&bytes, &t).unwrap(), v);
}

#[test]
fn golden_duration_bytes() {
    // Three independently signed variable-length integers, zigzag
    // folded: 1, 2, 3 become 2, 4, 6, each one byte.
    let d = CqlDuration { months: 1, days: 2, nanoseconds: 3 };
    assert_eq!(encode_value(&CqlValue::Duration(d)).unwrap(), vec![2, 4, 6]);
    // A negative component: -1 folds to 1.
    let d2 = CqlDuration { months: -1, days: 0, nanoseconds: 0 };
    assert_eq!(encode_value(&CqlValue::Duration(d2)).unwrap(), vec![1, 0, 0]);
    // A component needing extra bytes: 64 folds to 128 = one marker bit
    // plus one extra byte.
    let d3 = CqlDuration { months: 64, days: 0, nanoseconds: 0 };
    assert_eq!(
        encode_value(&CqlValue::Duration(d3)).unwrap(),
        vec![0x80, 0x80, 0, 0]
    );
    for d in [d, d2, d3] {
        let bytes = encode_value(&CqlValue::Duration(d)).unwrap();
        assert_eq!(
            decode_value(&bytes, &ColumnType::Duration).unwrap(),
            CqlValue::Duration(d)
        );
    }
}

#[test]
fn null_distinct_from_empty() {
    // An absent value travels as the null transport buffer.
    let null_ptr = value_to_wasmptr(&None).unwrap();
    assert!(null_ptr.is_null());
    assert_eq!(wasmptr_to_value(null_ptr, &ColumnType::List(Box::new(ColumnType::Int))).unwrap(), None);

    // A present, empty list travels as a real zero-count encoding.
    let t = ColumnType::List(Box::new(ColumnType::Int));
    let empty_ptr = value_to_wasmptr(&Some(CqlValue::List(vec![]))).unwrap();
    assert!(!empty_ptr.is_null());
    assert_eq!(empty_ptr.size(), Some(4));
    assert_eq!(
        wasmptr_to_value(empty_ptr, &t).unwrap(),
        Some(CqlValue::List(vec![]))
    );
    assert_eq!(encode_value(&CqlValue::List(vec![])).unwrap(), vec![0, 0, 0, 0]);
}

#[test]
fn tuple_null_field_offsets() {
    // A null tuple field is the four sentinel bytes; the next field
    // starts right after them.
    let v = CqlValue::Tuple(vec![None, Some(CqlValue::Int(7))]);
    let bytes = encode_value(&v).unwrap();
    assert_eq!(bytes, vec![0xFF, 0xFF, 0xFF, 0xFF, 0, 0, 0, 4, 0, 0, 0, 7]);
    let t = ColumnType::Tuple(vec![ColumnType::Text, ColumnType::Int]);
    assert_eq!(decode_value(&bytes, &t).unwrap(), v);
}

#[test]
fn map_scenario() {
    // {"a": 5, "b": 55} as a map of strings to 16-bit integers, with 2
    // as the decoded entry count.
    let build = || {
        CqlValue::MapOf(vec![
            (CqlValue::Text(String::from("a").into_bytes()), CqlValue::SmallInt(5)),
            (CqlValue::Text(String::from("b").into_bytes()), CqlValue::SmallInt(55)),
        ])
    };
    let bytes = encode_value(&build()).unwrap();
    assert_eq!(
        bytes,
        vec![
            0, 0, 0, 2, // entry count
            0, 0, 0, 1, b'a', 0, 0, 0, 2, 0, 5, // "a" -> 5
            0, 0, 0, 1, b'b', 0, 0, 0, 2, 0, 55, // "b" -> 55
        ]
    );
    let t = ColumnType::MapOf(Box::new(ColumnType::Text), Box::new(ColumnType::SmallInt));
    let out = decode_value(&bytes, &t).unwrap();
    match &out {
        CqlValue::MapOf(entries) => assert_eq!(entries.len(), 2),
        _ => panic!("expected a map"),
    }
    assert_eq!(out, build());
}

#[test]
fn malformed_inputs_are_rejected() {
    // Truncated fixed-width scalar.
    assert_eq!(
        decode_value(&[0, 0, 1], &ColumnType::Int),
        Err(MarshalError::MalformedValue)
    );
    // Trailing bytes after a fixed-width scalar.
    assert_eq!(
        decode_value(&[0, 0, 0, 0, 1], &ColumnType::Int),
        Err(MarshalError::MalformedValue)
    );
    // A count that disagrees with the bytes present.
    assert_eq!(
        decode_value(&[0, 0, 0, 2, 0, 0, 0, 4, 0, 0, 0, 1], &ColumnType::List(Box::new(ColumnType::Int))),
        Err(MarshalError::MalformedValue)
    );
    // An element length running past the end.
    assert_eq!(
        decode_value(&[0, 0, 0, 1, 0, 0, 0, 8, 0, 0, 0, 1], &ColumnType::List(Box::new(ColumnType::Int))),
        Err(MarshalError::MalformedValue)
    );
    // The sentinel is not a legal element length inside a collection.
    assert_eq!(
        decode_value(&[0, 0, 0, 1, 0xFF, 0xFF, 0xFF, 0xFF], &ColumnType::List(Box::new(ColumnType::Int))),
        Err(MarshalError::MalformedValue)
    );
    // An address length that is neither 4 nor 16.
    assert_eq!(
        decode_value(&[1, 2, 3, 4, 5], &ColumnType::Inet),
        Err(MarshalError::MalformedValue)
    );
    // A duration whose third component is missing.
    assert_eq!(
        decode_value(&[2, 4], &ColumnType::Duration),
        Err(MarshalError::MalformedValue)
    );
    // A tuple missing its second field entirely.
    assert_eq!(
        decode_value(
            &[0xFF, 0xFF, 0xFF, 0xFF],
            &ColumnType::Tuple(vec![ColumnType::Text, ColumnType::Int])
        ),
        Err(MarshalError::MalformedValue)
    );
}

#[test]
fn inet_both_families() {
    let v4 = CqlValue::Inet(vec![192, 168, 0, 1]);
    let b4 = encode_value(&v4).unwrap();
    assert_eq!(b4.len(), 4);
    assert_eq!(decode_value(&b4, &ColumnType::Inet).unwrap(), v4);
    let v6 = CqlValue::Inet((1..=16).collect());
    let b6 = encode_value(&v6).unwrap();
    assert_eq!(b6.len(), 16);
    assert_eq!(decode_value(&b6, &ColumnType::Inet).unwrap(), v6);
}

#[test]
fn user_defined_type_round_trip() {
    let build = || {
        CqlValue::UserDefinedType(vec![
            Some(CqlValue::Int(1)),
            None,
            Some(CqlValue::Text(String::from("x").into_bytes())),
        ])
    };
    let t = ColumnType::UserDefinedType {
        keyspace: String::from("ks"),
        field_types: vec![
            (String::from("a"), ColumnType::Int),
            (String::from("b"), ColumnType::BigInt),
            (String::from("c"), ColumnType::Text),
        ],
    };
    let bytes = encode_value(&build()).unwrap();
    assert_eq!(decode_value(&bytes, &t).unwrap(), build());
}

#[test]
fn varint_and_blob_pass_through() {
    let blob = CqlValue::Blob(vec![0, 1, 2, 0xFF]);
    let bytes = encode_value(&blob).unwrap();
    assert_eq!(bytes, vec![0, 1, 2, 0xFF]);
    assert_eq!(decode_value(&bytes, &ColumnType::Blob).unwrap(), blob);
    let varint = CqlValue::Varint(vec![0xFE, 0xDC]);
    let bytes = encode_value(&varint).unwrap();
    assert_eq!(decode_value(&bytes, &ColumnType::Varint).unwrap(), varint);
}

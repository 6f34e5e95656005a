use scylla_udf::{
    value_to_wasmptr, wasmptr_to_value, ColumnType, Counter, CqlDuration, CqlValue, FromWasmPtr,
    Time, Timestamp, ToWasmPtr, WasmConvertible,
};
use bigdecimal::BigDecimal;
use chrono::Duration;
use chrono::NaiveDate;
use num_bigint::BigInt;
use std::str::FromStr;
use uuid::Uuid;

fn buffered_round_trip(build: impl Fn() -> CqlValue, t: ColumnType) -> CqlValue {
    let ptr = value_to_wasmptr(&Some(build())).expect("encoding failed");
    wasmptr_to_value(ptr, &t).expect("decoding failed").expect("value was null")
}

#[test]
fn i32_convert() {
    assert_eq!(i32::from_wasm(42_i32.to_wasm()), 42_i32);
    assert_eq!(i32::from_wasm(-42_i32), -42_i32);
    assert_eq!((-42_i32).to_wasm(), -42_i32);
}

#[test]
fn i64_convert() {
    assert_eq!(i64::from_wasm(42_i64.to_wasm()), 42_i64);
    assert_eq!(i64::from_wasm(-42_i64), -42_i64);
    assert_eq!((-42_i64).to_wasm(), -42_i64);
}

#[test]
fn i8_convert() {
    assert_eq!(i8::from_wasm(42_i8.to_wasm()), 42_i8);
    assert_eq!(i8::from_wasm(-42_i32), -42_i8);
    assert_eq!((-42_i8).to_wasm(), -42_i32);
}

#[test]
fn i16_convert() {
    assert_eq!(i64::from_wasm(42_i64.to_wasm()), 42_i64);
    assert_eq!(i64::from_wasm(-42_i64), -42_i64);
    assert_eq!((-42_i64).to_wasm(), -42_i64);
}

#[test]
fn bool_convert() {
    assert!(bool::from_wasm(true.to_wasm()));
    assert!(bool::from_wasm(1_i32));
    assert_eq!(bool::to_wasm(&false), 0_i32);
}

#[test]
fn blob_convert() {
    let blob: Vec<u8> = vec![1, 2, 3, 4, 5];
    assert_eq!(Vec::<u8>::from_wasmptr(blob.to_wasmptr().unwrap()).unwrap(), blob);
}

#[test]
fn counter_convert() {
    assert_eq!(Counter::from_wasmptr(Counter(13).to_wasmptr().unwrap()).unwrap(), Counter(13));
}

#[test]
fn naive_date_convert() {
    let date = NaiveDate::from_ymd_opt(1970, 1, 1).unwrap();
    let epoch = NaiveDate::from_ymd_opt(1970, 1, 1).unwrap();
    let days = date.signed_duration_since(epoch).num_days();
    let wire_day = (days + (1_i64 << 31)) as u32;
    let out = buffered_round_trip(|| CqlValue::Date(wire_day), ColumnType::Date);
    assert_eq!(out, CqlValue::Date(1 << 31));
}

#[test]
fn big_decimal_convert() {
    let bigd = BigDecimal::from_str("547318970434573134570").unwrap();
    let (unscaled, exponent) = bigd.clone().into_bigint_and_exponent();
    let value = CqlValue::Decimal { scale: exponent as i32, unscaled: unscaled.to_signed_bytes_be() };
    let out = buffered_round_trip(
        || {
            let (unscaled, exponent) = bigd.clone().into_bigint_and_exponent();
            CqlValue::Decimal { scale: exponent as i32, unscaled: unscaled.to_signed_bytes_be() }
        },
        ColumnType::Decimal,
    );
    assert_eq!(out, value);
}

#[test]
fn cql_duration_convert() {
    let dur = CqlDuration {
        months: 1,
        days: 2,
        nanoseconds: 3,
    };
    assert_eq!(CqlDuration::from_wasmptr(dur.to_wasmptr().unwrap()).unwrap(), dur);
}

#[test]
fn timestamp_convert() {
    let ts = Timestamp(Duration::weeks(2).num_milliseconds());
    assert_eq!(Timestamp::from_wasmptr(ts.to_wasmptr().unwrap()).unwrap(), ts);
}

#[test]
fn string_convert() {
    let s = String::from("abc");
    assert_eq!(String::from_wasmptr(s.to_wasmptr().unwrap()).unwrap(), s);
}

#[test]
fn inet_convert() {
    // The four octets of 127.0.0.1.
    let octets: Vec<u8> = vec![127, 0, 0, 1];
    let out = buffered_round_trip(|| CqlValue::Inet(octets.clone()), ColumnType::Inet);
    assert_eq!(out, CqlValue::Inet(vec![127, 0, 0, 1]));
}

#[test]
fn time_convert() {
    let t = Time(Duration::hours(3).num_nanoseconds().unwrap());
    assert_eq!(Time::from_wasmptr(t.to_wasmptr().unwrap()).unwrap(), t);
}

#[test]
fn uuid_convert() {
    let uuid = Uuid::NAMESPACE_OID;
    let (msb, lsb) = uuid.as_u64_pair();
    let out = buffered_round_trip(|| CqlValue::Uuid(msb, lsb), ColumnType::Uuid);
    assert_eq!(out, CqlValue::Uuid(msb, lsb));
}

#[test]
fn big_int_convert() {
    let bi = BigInt::from_str("420000000000000000").unwrap();
    let bytes = bi.to_signed_bytes_be();
    let out = buffered_round_trip(|| CqlValue::Varint(bytes.clone()), ColumnType::Varint);
    assert_eq!(out, CqlValue::Varint(bi.to_signed_bytes_be()));
    assert_eq!(
        match out {
            CqlValue::Varint(b) => BigInt::from_signed_bytes_be(&b),
            _ => panic!("expected a varint"),
        },
        bi
    );
}

#[test]
fn vec_convert() {
    let build = || {
        CqlValue::List(vec![
            CqlValue::Text(String::from("a").into_bytes()),
            CqlValue::Text(String::from("b").into_bytes()),
        ])
    };
    let t = ColumnType::List(Box::new(ColumnType::Text));
    assert_eq!(buffered_round_trip(build, t), build());
}

#[test]
fn hashset_convert() {
    let build = || {
        CqlValue::SetOf(vec![
            CqlValue::Text(String::from("a").into_bytes()),
            CqlValue::Text(String::from("b").into_bytes()),
        ])
    };
    let t = ColumnType::SetOf(Box::new(ColumnType::Text));
    assert_eq!(buffered_round_trip(build, t), build());
}

#[test]
fn btreeset_convert() {
    let build = || {
        CqlValue::SetOf(vec![
            CqlValue::Tuple(vec![
                Some(CqlValue::Int(1)),
                Some(CqlValue::Text(String::from("a").into_bytes())),
            ]),
            CqlValue::Tuple(vec![
                Some(CqlValue::Int(3)),
                Some(CqlValue::Text(String::from("b").into_bytes())),
            ]),
        ])
    };
    let t = ColumnType::SetOf(Box::new(ColumnType::Tuple(vec![
        ColumnType::Int,
        ColumnType::Text,
    ])));
    assert_eq!(buffered_round_trip(build, t), build());
}

#[test]
fn hashmap_convert() {
    let build = || {
        CqlValue::MapOf(vec![
            (CqlValue::Text(String::from("a").into_bytes()), CqlValue::SmallInt(5)),
            (CqlValue::Text(String::from("b").into_bytes()), CqlValue::SmallInt(55)),
        ])
    };
    let t = ColumnType::MapOf(Box::new(ColumnType::Text), Box::new(ColumnType::SmallInt));
    let out = buffered_round_trip(build, t);
    match &out {
        CqlValue::MapOf(entries) => assert_eq!(entries.len(), 2),
        _ => panic!("expected a map"),
    }
    assert_eq!(out, build());
}

#[test]
fn btreemap_convert() {
    let build = || {
        CqlValue::MapOf(vec![
            (
                CqlValue::Tuple(vec![Some(CqlValue::Int(1)), Some(CqlValue::Int(2))]),
                CqlValue::Text(String::from("a").into_bytes()),
            ),
            (
                CqlValue::Tuple(vec![Some(CqlValue::Int(3)), Some(CqlValue::Int(4))]),
                CqlValue::Text(String::from("b").into_bytes()),
            ),
        ])
    };
    let t = ColumnType::MapOf(
        Box::new(ColumnType::Tuple(vec![ColumnType::Int, ColumnType::Int])),
        Box::new(ColumnType::Text),
    );
    assert_eq!(buffered_round_trip(build, t), build());
}

#[test]
fn tuple_convert() {
    let build = || {
        CqlValue::Tuple(vec![
            Some(CqlValue::Text(String::from("a").into_bytes())),
            Some(CqlValue::TinyInt(5)),
        ])
    };
    let t = ColumnType::Tuple(vec![ColumnType::Text, ColumnType::TinyInt]);
    assert_eq!(buffered_round_trip(build, t), build());
}

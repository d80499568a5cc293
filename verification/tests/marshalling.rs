use snow_duck::convert::{convert, ConversionContext};
use snow_duck::value::{HostValue, SourceValue, TimeUnit};

fn ctx() -> ConversionContext {
    ConversionContext::conventional()
}

#[test]
fn convert_null_and_bool() {
    assert_eq!(convert(ctx(), &SourceValue::Null), HostValue::Null);
    assert_eq!(convert(ctx(), &SourceValue::Boolean(true)), HostValue::Bool(true));
    assert_eq!(convert(ctx(), &SourceValue::Boolean(false)), HostValue::Bool(false));
}

#[test]
fn convert_signed_integers() {
    assert_eq!(convert(ctx(), &SourceValue::Int8(-8)), HostValue::Int(-8));
    assert_eq!(convert(ctx(), &SourceValue::Int16(-300)), HostValue::Int(-300));
    assert_eq!(convert(ctx(), &SourceValue::Int32(70_000)), HostValue::Int(70_000));
    assert_eq!(convert(ctx(), &SourceValue::Int64(i64::MIN)), HostValue::Int(i64::MIN));
    assert_eq!(convert(ctx(), &SourceValue::Int64(i64::MAX)), HostValue::Int(i64::MAX));
}

#[test]
fn convert_unsigned_integers_within_native_range() {
    assert_eq!(convert(ctx(), &SourceValue::UInt8(255)), HostValue::Int(255));
    assert_eq!(convert(ctx(), &SourceValue::UInt16(65_535)), HostValue::Int(65_535));
    assert_eq!(convert(ctx(), &SourceValue::UInt32(4_294_967_295)), HostValue::Int(4_294_967_295));
    assert_eq!(
        convert(ctx(), &SourceValue::UInt64(9_223_372_036_854_775_807)),
        HostValue::Int(i64::MAX)
    );
}

#[test]
fn convert_unsigned_64_bit_promotes_without_truncation() {
    // The largest 64-bit unsigned value must arrive intact as an
    // arbitrary-precision integer.
    assert_eq!(
        convert(ctx(), &SourceValue::UInt64(18_446_744_073_709_551_615)),
        HostValue::BigInt("18446744073709551615".to_string())
    );
    assert_eq!(
        convert(ctx(), &SourceValue::UInt64(9_223_372_036_854_775_808)),
        HostValue::BigInt("9223372036854775808".to_string())
    );
}

#[test]
fn convert_hugeint_via_exact_decimal_string() {
    assert_eq!(
        convert(ctx(), &SourceValue::HugeInt(0)),
        HostValue::BigInt("0".to_string())
    );
    assert_eq!(
        convert(ctx(), &SourceValue::HugeInt(i128::MAX)),
        HostValue::BigInt("170141183460469231731687303715884105727".to_string())
    );
    assert_eq!(
        convert(ctx(), &SourceValue::HugeInt(i128::MIN)),
        HostValue::BigInt("-170141183460469231731687303715884105728".to_string())
    );
}

#[test]
fn convert_decimal_exact_string() {
    assert_eq!(
        convert(ctx(), &SourceValue::Decimal { unscaled: 123_456, scale: 3 }),
        HostValue::Decimal("123.456".to_string())
    );
}

#[test]
fn convert_decimal_edge_shapes() {
    assert_eq!(
        convert(ctx(), &SourceValue::Decimal { unscaled: 5, scale: 3 }),
        HostValue::Decimal("0.005".to_string())
    );
    assert_eq!(
        convert(ctx(), &SourceValue::Decimal { unscaled: -5, scale: 3 }),
        HostValue::Decimal("-0.005".to_string())
    );
    assert_eq!(
        convert(ctx(), &SourceValue::Decimal { unscaled: -42, scale: 0 }),
        HostValue::Decimal("-42".to_string())
    );
    assert_eq!(
        convert(ctx(), &SourceValue::Decimal { unscaled: 1230, scale: 1 }),
        HostValue::Decimal("123.0".to_string())
    );
    let wide = convert(ctx(), &SourceValue::Decimal { unscaled: 5, scale: 40 });
    let mut expected = "0.".to_string();
    for _ in 0..39 {
        expected.push('0');
    }
    expected.push('5');
    assert_eq!(wide, HostValue::Decimal(expected));
}

#[test]
fn convert_floats_pass_bits_through() {
    let f = 1.5f32;
    let d = -2.25f64;
    assert_eq!(
        convert(ctx(), &SourceValue::Float32 { bits: f.to_bits() }),
        HostValue::Float32 { bits: f.to_bits() }
    );
    assert_eq!(
        convert(ctx(), &SourceValue::Float64 { bits: d.to_bits() }),
        HostValue::Float64 { bits: d.to_bits() }
    );
}

#[test]
fn convert_text_blob_and_enum() {
    assert_eq!(
        convert(ctx(), &SourceValue::Text("héllo".to_string())),
        HostValue::Str("héllo".to_string())
    );
    assert_eq!(
        convert(ctx(), &SourceValue::Blob(vec![0, 1, 255])),
        HostValue::Bytes(vec![0, 1, 255])
    );
    assert_eq!(
        convert(ctx(), &SourceValue::Enum("active".to_string())),
        HostValue::Symbol("active".to_string())
    );
}

#[test]
fn convert_dates_from_epoch_days() {
    assert_eq!(
        convert(ctx(), &SourceValue::Date32(0)),
        HostValue::Date { year: 1970, month: 1, day: 1 }
    );
    assert_eq!(
        convert(ctx(), &SourceValue::Date32(19_000)),
        HostValue::Date { year: 2022, month: 1, day: 8 }
    );
    assert_eq!(
        convert(ctx(), &SourceValue::Date32(-1)),
        HostValue::Date { year: 1969, month: 12, day: 31 }
    );
}

#[test]
fn convert_time_and_timestamp_keep_exact_ticks() {
    assert_eq!(
        convert(ctx(), &SourceValue::Timestamp(TimeUnit::Microsecond, 1_700_000_000_123_456)),
        HostValue::Instant { ticks: 1_700_000_000_123_456, ticks_per_second: 1_000_000 }
    );
    assert_eq!(
        convert(ctx(), &SourceValue::Time64(TimeUnit::Nanosecond, 42)),
        HostValue::Instant { ticks: 42, ticks_per_second: 1_000_000_000 }
    );
    assert_eq!(
        convert(ctx(), &SourceValue::Timestamp(TimeUnit::Second, -5)),
        HostValue::Instant { ticks: -5, ticks_per_second: 1 }
    );
    assert_eq!(
        convert(ctx(), &SourceValue::Time64(TimeUnit::Millisecond, 1_500)),
        HostValue::Instant { ticks: 1_500, ticks_per_second: 1_000 }
    );
}

#[test]
fn convert_interval_with_conventional_constants() {
    // One month plus fifteen days: 2_592_000 + 15 * 86_400 seconds.
    assert_eq!(
        convert(ctx(), &SourceValue::Interval { months: 1, days: 15, nanos: 0 }),
        HostValue::Duration { seconds: 3_888_000 }
    );
}

#[test]
fn convert_interval_truncates_subsecond_nanos_toward_zero() {
    assert_eq!(
        convert(ctx(), &SourceValue::Interval { months: 0, days: 0, nanos: 1_999_999_999 }),
        HostValue::Duration { seconds: 1 }
    );
    assert_eq!(
        convert(ctx(), &SourceValue::Interval { months: 0, days: 0, nanos: -1_999_999_999 }),
        HostValue::Duration { seconds: -1 }
    );
    assert_eq!(
        convert(ctx(), &SourceValue::Interval { months: -1, days: 2, nanos: 0 }),
        HostValue::Duration { seconds: -2_592_000 + 2 * 86_400 }
    );
}

#[test]
fn convert_list_preserves_order_and_length() {
    let v = SourceValue::List(vec![
        SourceValue::Int32(1),
        SourceValue::Text("two".to_string()),
        SourceValue::Null,
    ]);
    assert_eq!(
        convert(ctx(), &v),
        HostValue::Array(vec![
            HostValue::Int(1),
            HostValue::Str("two".to_string()),
            HostValue::Null,
        ])
    );
}

#[test]
fn convert_struct_preserves_field_order_and_nesting() {
    // {a: 1, b: [2, 3]} keeps its field order and the nested array order.
    let v = SourceValue::Struct(vec![
        ("a".to_string(), SourceValue::Int32(1)),
        (
            "b".to_string(),
            SourceValue::List(vec![SourceValue::Int32(2), SourceValue::Int32(3)]),
        ),
    ]);
    assert_eq!(
        convert(ctx(), &v),
        HostValue::Hash {
            entries: vec![
                (HostValue::Str("a".to_string()), HostValue::Int(1)),
                (
                    HostValue::Str("b".to_string()),
                    HostValue::Array(vec![HostValue::Int(2), HostValue::Int(3)]),
                ),
            ],
            indifferent: false,
        }
    );
}

#[test]
fn convert_struct_keeps_duplicate_names() {
    let v = SourceValue::Struct(vec![
        ("x".to_string(), SourceValue::Int32(1)),
        ("x".to_string(), SourceValue::Int32(2)),
    ]);
    assert_eq!(
        convert(ctx(), &v),
        HostValue::Hash {
            entries: vec![
                (HostValue::Str("x".to_string()), HostValue::Int(1)),
                (HostValue::Str("x".to_string()), HostValue::Int(2)),
            ],
            indifferent: false,
        }
    );
}

#[test]
fn convert_mapping_converts_non_string_keys() {
    let v = SourceValue::Mapping(vec![
        (SourceValue::Int32(10), SourceValue::Text("ten".to_string())),
        (SourceValue::Boolean(true), SourceValue::Null),
    ]);
    assert_eq!(
        convert(ctx(), &v),
        HostValue::Hash {
            entries: vec![
                (HostValue::Int(10), HostValue::Str("ten".to_string())),
                (HostValue::Bool(true), HostValue::Null),
            ],
            indifferent: false,
        }
    );
}

#[test]
fn convert_union_unwraps_inner_value() {
    let v = SourceValue::Union(Box::new(SourceValue::Text("inner".to_string())));
    assert_eq!(convert(ctx(), &v), HostValue::Str("inner".to_string()));
}

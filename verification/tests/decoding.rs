use ble_collector::converter::{CharacteristicValue, ConversionError, Converter};
use ble_collector::converter::{i64_from_le, i64_to_le_bytes, u64_from_le};
use ble_collector::model::{addr_to_string, uuid_to_string};
use ble_collector::text::{str_contains, str_ends_with, str_eq, str_starts_with};

fn ble_serialize(num: f32, multiplier: i32, decimal_exponent: i32, binary_exponent: i32) -> f32 {
    let mut result = num / (multiplier as f32);
    result /= 10f32.powi(decimal_exponent);
    result /= 2f32.powi(binary_exponent);
    result
}

/// The scaled decode of a two's-complement reading carries its factors
/// exactly; evaluated as a float it lands on the encoded value.
#[test]
fn converter_test() {
    let converter = Converter::Signed { l: 2, m: 1, d: 0, b: -6 };

    let encoded = ble_serialize(-12.4f32, 1, 0, -6) as i16;
    let encoded_bytes = encoded.to_le_bytes().to_vec();
    let CharacteristicValue::Scaled { value, multiplier, decimal_exponent, binary_exponent } =
        converter.convert(encoded_bytes).unwrap()
    else {
        panic!("Unexpected result");
    };

    assert_eq!(value, encoded as i64);
    assert_eq!(multiplier, 1);
    assert_eq!(decimal_exponent, 0);
    assert_eq!(binary_exponent, -6);

    let result = value as f64 * multiplier as f64 * 10f64.powi(decimal_exponent)
        * 2f64.powi(binary_exponent);
    assert!((result - (-12.4f64)).abs() < 0.02);
}

/// Encoding `x * 2^k` and decoding under `b = -k` returns `x` exactly.
#[test]
fn signed_scaling_round_trip() {
    let x: i64 = 5;
    let k: i32 = 6;
    let stored = x << k;
    let bytes = i64_to_le_bytes(stored, 2);
    let converter = Converter::Signed { l: 2, m: 1, d: 0, b: -k };
    match converter.convert(bytes).unwrap() {
        CharacteristicValue::Scaled { value, multiplier, decimal_exponent, binary_exponent } => {
            assert_eq!(value, stored);
            assert_eq!(multiplier, 1);
            assert_eq!(decimal_exponent, 0);
            assert_eq!(binary_exponent, -k);
            let back = value as f64 * 2f64.powi(binary_exponent);
            assert_eq!(back, x as f64);
        }
        other => panic!("unexpected value: {:?}", other),
    }
}

/// A zero-length signed codec rejects any non-empty payload.
#[test]
fn zero_length_rejects_nonempty() {
    let converter = Converter::Signed { l: 0, m: 1, d: 0, b: 0 };
    let r = converter.convert(vec![1, 2, 3]);
    assert_eq!(r, Err(ConversionError::LenMismatch { expected: 0, actual: 3 }));
    assert_eq!(
        converter.convert(vec![]),
        Ok(CharacteristicValue::I64(0))
    );
}

#[test]
fn little_endian_readings() {
    assert_eq!(u64_from_le(&vec![0x01, 0x02]), 0x0201);
    assert_eq!(i64_from_le(&vec![0xff]), -1);
    assert_eq!(i64_from_le(&vec![0x00, 0x80]), -32768);
    assert_eq!(i64_from_le(&vec![0xff, 0x7f]), 32767);
    assert_eq!(i64_to_le_bytes(-793, 2), (-793i16).to_le_bytes().to_vec());
    assert_eq!(i64_to_le_bytes(-1, 8), vec![0xff; 8]);
}

#[test]
fn f32_codec_reads_bits() {
    let converter = Converter::F32;
    let bytes = 2.5f32.to_le_bytes().to_vec();
    match converter.convert(bytes).unwrap() {
        CharacteristicValue::F32Bits(bits) => {
            assert_eq!(f32::from_bits(bits), 2.5f32);
        }
        other => panic!("unexpected value: {:?}", other),
    }
    assert_eq!(
        converter.convert(vec![1, 2, 3]),
        Err(ConversionError::LenMismatch { expected: 4, actual: 3 })
    );
}

#[test]
fn utf8_codec_strips_trailing_nuls() {
    let converter = Converter::Utf8;
    match converter.convert(b"ok\0\0".to_vec()).unwrap() {
        CharacteristicValue::Utf8(s) => assert_eq!(s, "ok"),
        other => panic!("unexpected value: {:?}", other),
    }
    assert_eq!(
        converter.convert(vec![0xff, 0xfe]),
        Err(ConversionError::Utf8Error)
    );
}

#[test]
fn unsigned_codec_rejects_values_beyond_i64() {
    let converter = Converter::Unsigned { l: 8, m: 1, d: 0, b: 0 };
    let r = converter.convert(vec![0xff; 8]);
    assert_eq!(r, Err(ConversionError::BigUintCastError));
}

#[test]
fn integral_overflow_is_a_cast_error() {
    let converter = Converter::Signed { l: 8, m: 10, d: 0, b: 0 };
    let bytes = i64_to_le_bytes(i64::MAX, 8);
    assert_eq!(converter.convert(bytes), Err(ConversionError::BigIntCastError));

    let small = Converter::Signed { l: 1, m: 2, d: 1, b: 1 };
    assert_eq!(
        small.convert(vec![3]),
        Ok(CharacteristicValue::I64(3 * 2 * 10 * 2))
    );
}

#[test]
fn address_and_uuid_formatting() {
    assert_eq!(addr_to_string(0x112233445566), "11:22:33:44:55:66");
    assert_eq!(addr_to_string(0xAABBCCDDEEFF), "AA:BB:CC:DD:EE:FF");
    assert_eq!(
        uuid_to_string(0x0000180f_0000_1000_8000_00805f9b34fb),
        "0000180f-0000-1000-8000-00805f9b34fb"
    );
    assert_eq!(uuid_to_string(0), "00000000-0000-0000-0000-000000000000");
}

#[test]
fn string_predicates_match_std() {
    assert!(str_eq("abc", "abc"));
    assert!(!str_eq("abc", "abd"));
    assert!(str_contains("peripheral hci0", "hci"));
    assert!(!str_contains("peripheral", "hci"));
    assert!(str_starts_with("FA:6F:11", "FA:6F"));
    assert!(str_ends_with("device test", "test"));
}

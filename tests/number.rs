use retl::number::{Error, Num};
use retl::{DataType, Number};

#[test]
fn test_cast() {
    let from_num: Number = 16i64.into();
    let converted = from_num.into_uint8();
    assert!(converted.is_ok());
    assert_eq!(converted.unwrap(), 16u8);
}

#[test]
fn narrowing_overflow_fails() {
    let n: Number = 300i32.into();
    assert!(matches!(n.into_uint8(), Err(Error::CastError { .. })));
    assert!(n.into_uint16().is_ok());
}

#[test]
fn number_round_trips() {
    assert_eq!(Number::from(200u8).as_u8(), 200u8);
    assert_eq!(Number::from(60000u16).as_u16(), 60000u16);
    assert_eq!(Number::from(4000000000u32).as_u32(), 4000000000u32);
    assert_eq!(Number::from(u64::MAX).as_u64(), u64::MAX);
    assert_eq!(Number::from(-100i8).as_i8(), -100i8);
    assert_eq!(Number::from(-30000i16).as_i16(), -30000i16);
    assert_eq!(Number::from(i32::MIN).as_i32(), i32::MIN);
    assert_eq!(Number::from(i64::MIN).as_i64(), i64::MIN);
}

#[test]
fn parses_integers() {
    assert_eq!(Number::from_str("+42", &DataType::Uint8), Ok(Number::from(42u8)));
    assert_eq!(Number::from_str("-128", &DataType::Int8), Ok(Number::from(-128i8)));
    assert!(matches!(Number::from_str("256", &DataType::Uint8), Err(Error::ParseIntError { .. })));
    assert!(matches!(Number::from_str("-1", &DataType::Uint8), Err(Error::ParseIntError { .. })));
    assert!(matches!(Number::from_str("", &DataType::Int32), Err(Error::ParseIntError { .. })));
    assert!(matches!(Number::from_str("1x", &DataType::Int32), Err(Error::ParseIntError { .. })));
    assert_eq!(
        Number::from_str("18446744073709551615", &DataType::Uint64),
        Ok(Number::from(u64::MAX))
    );
    assert_eq!(
        Number::from_str("x", &DataType::Bool),
        Err(Error::InvalidDataType { datatype: DataType::Bool })
    );
}

#[test]
fn writes_integers() {
    assert_eq!(Number::from(0u8).to_string(), "0");
    assert_eq!(Number::from(-9223372036854775808i64).to_string(), "-9223372036854775808");
    assert_eq!(Number::from(1234567u32).to_string(), "1234567");
}

#[test]
fn decimals_read_and_write_through_rust_decimal() {
    let d = Number::from_str("12.50", &DataType::Decimal).unwrap();
    assert!(d.is_decimal());
    assert_eq!(d.to_string(), "12.50");
    assert!(matches!(
        Number::from_str("abc", &DataType::Decimal),
        Err(Error::ParseDecimalError { .. })
    ));
    let i = Number::from(-7i16).into_decimal().unwrap();
    assert_eq!(i.to_string(), "-7");
}

#[test]
fn checked_add_reports_overflow() {
    assert_eq!(Number::from(2u8).checked_add(Number::from(3u8)), Ok(Number::from(5u8)));
    assert_eq!(Number::from(200u8).checked_add(Number::from(100u8)), Err(Error::OpFailed));
    assert_eq!(Number::from(2u8).checked_add(Number::from(3i8)), Err(Error::IllegalOperation));
}

#[test]
fn small_integers_convert_exactly_into_floats() {
    for v in [0i16, 1, -1, 2, 3, 7, 100, -255, 1023, 32767, -32768] {
        let n = Number::from(v).into_float().unwrap();
        assert_eq!(n, Number(Num::Float((v as f32).to_bits())), "float of {}", v);
    }
    for v in [0u16, 1, 255, 256, 65535] {
        let n = Number::from(v).into_float().unwrap();
        assert_eq!(n, Number(Num::Float((v as f32).to_bits())), "float of {}", v);
    }
    for v in [0i32, 1, -1, 12345, i32::MAX, i32::MIN] {
        let n = Number::from(v).into_double().unwrap();
        assert_eq!(n, Number(Num::Double((v as f64).to_bits())), "double of {}", v);
    }
    for v in [0u32, 3, u32::MAX] {
        let n = Number::from(v).into_double().unwrap();
        assert_eq!(n, Number(Num::Double((v as f64).to_bits())), "double of {}", v);
    }
    assert_eq!(Number::from(5u64).into_double(), Err(Error::IllegalConversion));
    assert!(matches!(
        Number(Num::Float(1.5f32.to_bits())).into_double(),
        Err(Error::CastError { .. })
    ));
}

use std::cmp::Ordering;
use messagepack::value::{Number, Value, ValueRef};

#[test]
fn number_conversions() {
    let n = Number::from(1);
    assert_eq!(n.as_unsigned_int(), Some(1));
    assert_eq!(n, Number::PositiveInt(1));

    let n = Number::from(-1);
    assert_eq!(n.as_unsigned_int(), None);
    assert_eq!(n.as_signed_int(), Some(-1));
    assert_eq!(n, Number::NegativeInt(-1));

    let n = Number::from(u64::MAX);
    assert_eq!(n.as_signed_int(), None);
    assert_eq!(n.as_unsigned_int(), Some(u64::MAX));

    let n = Number::Float(1.5f64.to_bits());
    assert_eq!(n.as_float_bits().map(f64::from_bits), Some(1.5));
    assert_eq!(n.as_unsigned_int(), None);
    assert_eq!(Number::from(1).as_float_bits(), None);

    assert_eq!(Number::from(5u8), Number::PositiveInt(5));
    assert_eq!(Number::from(-5i16), Number::NegativeInt(-5));
    assert_eq!(Number::from(7i32), Number::PositiveInt(7));
    assert_eq!(Number::from(70000u32), Number::PositiveInt(70000));
}

#[test]
fn value_accessors() {
    assert!(Value::Nil.is_nil());
    assert!(!Value::Bool(true).is_nil());
    assert_eq!(Value::Bool(true).as_bool(), Some(true));
    assert_eq!(Value::Nil.as_bool(), None);
    assert_eq!(Value::Bin(vec![1, 2]).as_bin(), Some(&[1u8, 2][..]));
    assert_eq!(
        Value::Extension { kind: 1, data: vec![0x12, 0x34] }.as_extension(),
        Some((1, &[0x12u8, 0x34][..]))
    );
    assert_eq!(Value::Number(Number::from(3)).as_number(), Some(Number::PositiveInt(3)));
    assert_eq!(Value::String("hi".to_string()).as_string(), Some("hi"));
    let arr = Value::Array(vec![Value::Nil, Value::Bool(false)]);
    assert_eq!(arr.as_array().map(|a| a.len()), Some(2));
    assert_eq!(arr.as_map(), None);
    let map = Value::Mapping(vec![(Value::String("k".into()), Value::Bool(false))]);
    assert_eq!(map.as_map().map(|m| m.len()), Some(1));
    assert_eq!(map.as_string(), None);
}

#[test]
fn value_ref_accessors() {
    assert!(ValueRef::Nil.is_nil());
    assert_eq!(ValueRef::Bool(false).as_bool(), Some(false));
    assert_eq!(ValueRef::Bin(&[1]).as_bin(), Some(&[1u8][..]));
    assert_eq!(ValueRef::Extension(-1, &[0; 4]).as_extension(), Some((-1, &[0u8; 4][..])));
    assert_eq!(ValueRef::String("a").as_string(), Some("a"));
    assert_eq!(ValueRef::Number(Number::from(-3)).as_number(), Some(Number::NegativeInt(-3)));
    let arr = ValueRef::Array(vec![ValueRef::Nil]);
    assert_eq!(arr.as_array().map(|a| a.len()), Some(1));
    let map = ValueRef::Mapping(vec![(ValueRef::Nil, ValueRef::Nil)]);
    assert_eq!(map.as_map().map(|m| m.len()), Some(1));
    assert_eq!(map.as_bool(), None);
}

#[test]
fn number_float_equality_follows_f64() {
    let nan = Number::Float(f64::NAN.to_bits());
    assert_ne!(nan, nan);
    assert_eq!(Number::Float(0.0f64.to_bits()), Number::Float((-0.0f64).to_bits()));
    assert_eq!(Number::Float(1.5f64.to_bits()), Number::Float(1.5f64.to_bits()));
    assert_ne!(Number::Float(1.5f64.to_bits()), Number::Float(2.5f64.to_bits()));
    assert_ne!(Number::PositiveInt(1), Number::Float(1.0f64.to_bits()));
}

#[test]
fn number_order_follows_variants_then_values() {
    assert!(Number::PositiveInt(1) < Number::PositiveInt(2));
    assert!(Number::NegativeInt(-2) < Number::NegativeInt(-1));
    assert!(Number::PositiveInt(u64::MAX) < Number::NegativeInt(-1));
    assert!(Number::NegativeInt(-1) < Number::Float(0.0f64.to_bits()));
    assert!(Number::Float((-2.0f64).to_bits()) < Number::Float((-1.0f64).to_bits()));
    assert!(Number::Float((-1.0f64).to_bits()) < Number::Float(0.5f64.to_bits()));
    assert!(Number::Float(0.5f64.to_bits()) < Number::Float(f64::INFINITY.to_bits()));
    assert_eq!(
        Number::Float(0.0f64.to_bits()).partial_cmp(&Number::Float((-0.0f64).to_bits())),
        Some(Ordering::Equal)
    );
    assert_eq!(
        Number::Float(f64::NAN.to_bits()).partial_cmp(&Number::Float(1.0f64.to_bits())),
        None
    );
    assert_eq!(
        Number::Float(f64::NAN.to_bits()).partial_cmp(&Number::PositiveInt(1)),
        Some(Ordering::Greater)
    );
}

#[test]
fn number_from_pointer_sized_integers() {
    assert_eq!(Number::from_usize(7), Some(Number::PositiveInt(7)));
    assert_eq!(Number::from_usize(usize::MAX), Some(Number::PositiveInt(usize::MAX as u64)));
    assert_eq!(Number::from_isize(1), Number::PositiveInt(1));
    assert_eq!(Number::from_isize(-1), Number::NegativeInt(-1));
    assert_eq!(Number::from_isize(isize::MIN), Number::NegativeInt(isize::MIN as i64));
}

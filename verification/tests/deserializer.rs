use messagepack::de::seq::{ByteAccess, FixLenAccess};
use messagepack::de::{Deserializer, EnumStart, Error, Token, MAX_RECURSION_DEPTH};
use messagepack::decode::Error as CoreError;

/// Reads an `f64` the way a deserializer hands one to a visitor.
fn next_f64(de: &mut Deserializer<'_>) -> f64 {
    match de.decode_any().unwrap() {
        Token::F64(bits) => f64::from_bits(bits),
        Token::F32(bits) => f32::from_bits(bits) as f64,
        other => panic!("not a float: {:?}", other),
    }
}

/// Reads a `u8` the way a deserializer hands one to a visitor.
fn next_u8(de: &mut Deserializer<'_>) -> u8 {
    match de.decode_any().unwrap() {
        Token::U8(v) => v,
        other => panic!("not a u8: {:?}", other),
    }
}

/// Skips one value, nesting included, as `IgnoredAny` does.
fn skip_value(de: &mut Deserializer<'_>) -> Result<(), Error> {
    match de.decode_any()? {
        Token::ArrayHeader(n) => {
            de.recurse_enter()?;
            for _ in 0..n {
                skip_value(de)?;
            }
            de.recurse_leave();
            Ok(())
        }
        Token::MapHeader(n) => {
            de.recurse_enter()?;
            for _ in 0..2 * n {
                skip_value(de)?;
            }
            de.recurse_leave();
            Ok(())
        }
        _ => Ok(()),
    }
}

#[test]
fn decode_float_vec() {
    // [1.1,1.2,1.3,1.4,1.5]
    let buf = [
        0x95, 0xcb, 0x3f, 0xf1, 0x99, 0x99, 0x99, 0x99, 0x99, 0x9a, 0xcb, 0x3f, 0xf3, 0x33,
        0x33, 0x33, 0x33, 0x33, 0x33, 0xcb, 0x3f, 0xf4, 0xcc, 0xcc, 0xcc, 0xcc, 0xcc, 0xcd,
        0xcb, 0x3f, 0xf6, 0x66, 0x66, 0x66, 0x66, 0x66, 0x66, 0xcb, 0x3f, 0xf8, 0x00, 0x00,
        0x00, 0x00, 0x00, 0x00,
    ];

    let mut de = Deserializer::new(&buf);
    let n = match de.decode_any().unwrap() {
        Token::ArrayHeader(n) => n,
        other => panic!("not an array: {:?}", other),
    };
    let mut decoded = Vec::new();
    for _ in 0..n {
        decoded.push(next_f64(&mut de));
    }
    let expected = [1.1, 1.2, 1.3, 1.4, 1.5];

    assert_eq!(decoded, expected)
}

#[test]
fn option_consumes_nil_in_sequence() {
    // [None, 5] as an array of two elements
    let buf: &[u8] = &[0x92, 0xc0, 0x05];

    let mut de = Deserializer::new(buf);
    assert!(matches!(de.decode_any().unwrap(), Token::ArrayHeader(2)));
    let first = if de.take_nil().unwrap() { None } else { Some(next_u8(&mut de)) };
    let second = next_u8(&mut de);
    assert_eq!((first, second), (None, 5));
}

#[test]
fn option_some_simple() {
    let buf: &[u8] = &[0x05];
    let mut de = Deserializer::new(buf);
    let decoded = if de.take_nil().unwrap() { None } else { Some(next_u8(&mut de)) };
    assert_eq!(decoded, Some(5));
}

#[test]
fn unit_from_nil() {
    let buf: &[u8] = &[0xc0];
    let mut de = Deserializer::new(buf);
    assert!(matches!(de.decode_any().unwrap(), Token::Nil));
}

#[test]
fn recursion_limit_ok_at_256() {
    // [[[[...]]]] 256 nested array
    let mut buf = vec![0x91u8; 256];
    buf.push(0xc0);

    let mut de = Deserializer::new(&buf);
    skip_value(&mut de).unwrap();
    assert_eq!(de.depth, 0);
    assert_eq!(MAX_RECURSION_DEPTH, 256);
}

#[test]
fn recursion_limit_err_over_256() {
    // [[[[...]]]] 257 nested array
    let mut buf = vec![0x91u8; 257];
    buf.push(0xc0);

    let mut de = Deserializer::new(&buf);
    let err = skip_value(&mut de).unwrap_err();
    assert!(matches!(err, Error::RecursionLimitExceeded));
}

#[test]
fn decode_any_tokens() {
    let buf: &[u8] = &[
        0xc3, 0xcd, 0x01, 0x00, 0xd0, 0x80, 0xa1, 0x61, 0xc4, 0x02, 0x01, 0x02, 0x82, 0xd4,
        0x7b, 0x12,
    ];
    let mut de = Deserializer::new(buf);
    assert!(matches!(de.decode_any().unwrap(), Token::Bool(true)));
    assert!(matches!(de.decode_any().unwrap(), Token::U16(256)));
    assert!(matches!(de.decode_any().unwrap(), Token::I8(-128)));
    assert!(matches!(de.decode_any().unwrap(), Token::Str("a")));
    match de.decode_any().unwrap() {
        Token::Bin(b) => assert_eq!(b, &[1, 2]),
        other => panic!("{:?}", other),
    }
    assert!(matches!(de.decode_any().unwrap(), Token::MapHeader(2)));
    match de.decode_any().unwrap() {
        Token::Ext(k, d) => {
            assert_eq!(k, 123);
            assert_eq!(d, &[0x12]);
        }
        other => panic!("{:?}", other),
    }
    assert!(de.input.is_empty());
}

#[test]
fn decode_any_error_consumes_marker() {
    // uint 16 cut short: the marker is consumed, the short payload is not
    let buf: &[u8] = &[0xcd, 0x01];
    let mut de = Deserializer::new(buf);
    let err = de.decode_any().unwrap_err();
    assert!(matches!(err, Error::Decode(CoreError::EofData)));
    assert_eq!(de.input, &buf[1..]);

    let mut empty = Deserializer::new(&[]);
    assert!(matches!(empty.decode_any(), Err(Error::Decode(CoreError::EofFormat))));
    assert!(empty.input.is_empty());

    let never: &[u8] = &[0xc1, 0x01];
    let mut de = Deserializer::new(never);
    assert!(matches!(de.decode_any(), Err(Error::Decode(CoreError::UnexpectedFormat))));
    assert_eq!(de.input, &never[1..]);
}

#[test]
fn decode_enum_starts() {
    // "Unit"
    let buf: &[u8] = &[0xa4, 0x55, 0x6e, 0x69, 0x74];
    let mut de = Deserializer::new(buf);
    assert!(matches!(de.decode_enum_start().unwrap(), EnumStart::Unit("Unit")));

    // {"Newtype":27}
    let buf: &[u8] = &[0x81, 0xa7, 0x4e, 0x65, 0x77, 0x74, 0x79, 0x70, 0x65, 0x1b];
    let mut de = Deserializer::new(buf);
    assert!(matches!(de.decode_enum_start().unwrap(), EnumStart::Compound));
    assert!(matches!(de.decode_any().unwrap(), Token::Str("Newtype")));
    assert!(matches!(de.decode_any().unwrap(), Token::U8(27)));

    let buf: &[u8] = &[0xc3];
    let mut de = Deserializer::new(buf);
    assert!(matches!(
        de.decode_enum_start(),
        Err(Error::Decode(CoreError::UnexpectedFormat))
    ));
}

#[test]
fn take_nil_puts_marker_back() {
    let buf: &[u8] = &[0xcc, 0x80];
    let mut de = Deserializer::new(buf);
    assert_eq!(de.take_nil().unwrap(), false);
    assert!(matches!(de.decode_any().unwrap(), Token::U8(128)));
    assert!(de.input.is_empty());
}

#[test]
fn fix_len_access_counts() {
    let mut access = FixLenAccess::new(2);
    assert_eq!(access.size_hint(), Some(2));
    assert!(access.next_element());
    assert!(access.next_element());
    assert!(!access.next_element());
    assert_eq!(access.size_hint(), Some(0));
}

#[test]
fn byte_access_reads_bytes() {
    let mut access = ByteAccess::new(&[1, 2]);
    assert_eq!(access.size_hint(), Some(2));
    assert_eq!(access.deserialize_u8().unwrap(), 1);
    assert_eq!(access.next_element().unwrap(), Some(2));
    assert_eq!(access.next_element().unwrap(), None);
    assert!(matches!(access.deserialize_u8(), Err(Error::Decode(CoreError::EofData))));
    match access.deserialize_any() {
        Err(Error::Message(m)) => assert_eq!(m, "ByteAccess deserialize only support `u8`"),
        _ => panic!("expected a message"),
    }
}

#[test]
fn decode_struct() {
    // {"compact":true,"schema":0}
    let buf: &[u8] = &[
        0x82, 0xa7, 0x63, 0x6f, 0x6d, 0x70, 0x61, 0x63, 0x74, 0xc3, 0xa6, 0x73, 0x63, 0x68,
        0x65, 0x6d, 0x61, 0x00,
    ];

    let mut de = Deserializer::new(buf);
    let n = match de.decode_any().unwrap() {
        Token::MapHeader(n) => n,
        other => panic!("not a map: {:?}", other),
    };
    let mut compact = None;
    let mut schema = None;
    for _ in 0..n {
        match de.decode_any().unwrap() {
            Token::Str("compact") => {
                compact = Some(matches!(de.decode_any().unwrap(), Token::Bool(true)))
            }
            Token::Str("schema") => schema = Some(next_u8(&mut de)),
            other => panic!("unknown field: {:?}", other),
        }
    }
    assert!(compact.unwrap());
    assert_eq!(schema, Some(0));
}

#[test]
fn decode_struct_from_array() {
    // [true, 0] where fields are in declaration order
    let buf: &[u8] = &[0x92, 0xc3, 0x00];

    let mut de = Deserializer::new(buf);
    assert!(matches!(de.decode_any().unwrap(), Token::ArrayHeader(2)));
    let compact = matches!(de.decode_any().unwrap(), Token::Bool(true));
    let schema = next_u8(&mut de);
    assert_eq!((compact, schema), (true, 0));
}

#[test]
fn unit_struct() {
    let buf: &[u8] = &[0xc0];
    let mut de = Deserializer::new(buf);
    assert!(matches!(de.decode_any().unwrap(), Token::Nil));
    assert!(de.input.is_empty());
}

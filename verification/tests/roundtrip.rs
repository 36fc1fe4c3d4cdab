use messagepack::de::{Deserializer, EnumStart, Token};
use messagepack::decode::array::ArrayDecoder;
use messagepack::decode::bin::BinDecoder;
use messagepack::decode::extension::ExtensionDecoder;
use messagepack::decode::float::{Float32Decoder, Float64Decoder};
use messagepack::decode::map::MapDecoder;
use messagepack::decode::nil::NilDecoder;
use messagepack::decode::str::StrDecoder;
use messagepack::decode::Decode;
use messagepack::encode::array::ArrayEncoder;
use messagepack::encode::bin::BinaryEncoder;
use messagepack::encode::extension::ExtensionEncoder;
use messagepack::encode::float::{Float32Encoder, Float64Encoder};
use messagepack::encode::map::MapSliceEncoder;
use messagepack::encode::Encode;
use messagepack::ser::num::{Exact, LosslessMinimize};
use messagepack::ser::Serializer;
use messagepack::Format;

/// The integer a token carries.
fn token_int(t: Token<'_>) -> Option<i128> {
    match t {
        Token::U8(v) => Some(v as i128),
        Token::U16(v) => Some(v as i128),
        Token::U32(v) => Some(v as i128),
        Token::U64(v) => Some(v as i128),
        Token::I8(v) => Some(v as i128),
        Token::I16(v) => Some(v as i128),
        Token::I32(v) => Some(v as i128),
        Token::I64(v) => Some(v as i128),
        _ => None,
    }
}

const SAMPLES: [i128; 18] = [
    0,
    1,
    127,
    128,
    255,
    256,
    65535,
    65536,
    4294967295,
    4294967296,
    u64::MAX as i128,
    -1,
    -32,
    -33,
    -128,
    -129,
    -32769,
    i64::MIN as i128,
];

#[test]
fn integers_read_back_after_minimal_encoding() {
    for v in SAMPLES {
        let mut ser = Serializer::new(LosslessMinimize);
        ser.serialize_i128(v).unwrap();
        let mut bytes = ser.into_bytes();
        let len = bytes.len();
        bytes.push(0xc3);
        let mut de = Deserializer::new(&bytes);
        assert_eq!(token_int(de.decode_any().unwrap()), Some(v));
        assert_eq!(de.input.len(), bytes.len() - len);
    }
}

#[test]
fn integers_read_back_after_exact_encoding() {
    for v in [0i64, 1, -1, 300, -300, i64::MAX, i64::MIN] {
        let mut ser = Serializer::new(Exact);
        ser.serialize_i64(v).unwrap();
        let bytes = ser.into_bytes();
        let mut de = Deserializer::new(&bytes);
        assert_eq!(token_int(de.decode_any().unwrap()), Some(v as i128));
        let (back, rest) = i64::decode(&bytes).unwrap();
        assert_eq!(back, v);
        assert!(rest.is_empty());
    }
    for v in [0u16, 1, 0xff, 0xffff] {
        let mut ser = Serializer::new(Exact);
        ser.serialize_u16(v).unwrap();
        let bytes = ser.into_bytes();
        assert_eq!(u16::decode(&bytes).unwrap().0, v);
    }
    for v in [0u32, 7, u32::MAX] {
        let mut ser = Serializer::new(Exact);
        ser.serialize_u32(v).unwrap();
        assert_eq!(u32::decode(&ser.into_bytes()).unwrap().0, v);
    }
    for v in [i16::MIN, -1, 0, i16::MAX] {
        let mut ser = Serializer::new(Exact);
        ser.serialize_i16(v).unwrap();
        assert_eq!(i16::decode(&ser.into_bytes()).unwrap().0, v);
    }
}

#[test]
fn small_integers_read_back_by_typed_decoders() {
    for v in [0u8, 5, 127, 128, 255] {
        let mut buf = vec![];
        v.encode(&mut buf).unwrap();
        assert_eq!(u8::decode(&buf).unwrap(), (v, &[][..]));
    }
    for v in [-1i8, -32, -33, -128] {
        let mut buf = vec![];
        v.encode(&mut buf).unwrap();
        assert_eq!(i8::decode(&buf).unwrap().0, v);
    }
}

#[test]
fn bool_and_nil_read_back() {
    for b in [true, false] {
        let mut buf = vec![];
        b.encode(&mut buf).unwrap();
        assert_eq!(bool::decode(&buf).unwrap().0, b);
    }
    let buf = [0xc0, 0x01];
    assert_eq!(NilDecoder::decode(&buf).unwrap().1, &[0x01]);
    assert_eq!(Option::<u8>::decode(&buf).unwrap().0, None);
}

#[test]
fn strings_read_back() {
    let samples: Vec<String> = vec![
        String::new(),
        "a".to_string(),
        "héllo wörld".to_string(),
        "z".repeat(31),
        "y".repeat(32),
        "q".repeat(300),
        "w".repeat(70000),
    ];
    for s in samples.iter().map(|s| s.as_str()) {
        let mut buf = vec![];
        s.encode(&mut buf).unwrap();
        buf.push(0xc0);
        let (back, rest) = StrDecoder::decode(&buf).unwrap();
        assert_eq!(back, s);
        assert_eq!(rest, &[0xc0]);
        let mut de = Deserializer::new(&buf);
        assert!(matches!(de.decode_any().unwrap(), Token::Str(t) if t == s));
    }
}

#[test]
fn byte_strings_read_back() {
    for n in [0usize, 1, 255, 256, 65535, 65536] {
        let data: Vec<u8> = (0..n).map(|i| (i % 251) as u8).collect();
        let mut buf = vec![];
        BinaryEncoder(&data).encode(&mut buf).unwrap();
        let (back, rest) = BinDecoder::decode(&buf).unwrap();
        assert_eq!(back, &data[..]);
        assert!(rest.is_empty());
    }
}

#[test]
fn extensions_read_back() {
    for n in [0usize, 1, 2, 3, 4, 8, 16, 17, 255, 256, 65536] {
        let data: Vec<u8> = (0..n).map(|i| (i % 7) as u8).collect();
        for kind in [-128i8, -1, 0, 127] {
            let mut buf = vec![];
            ExtensionEncoder::new(kind, &data).encode(&mut buf).unwrap();
            let ((k, d), rest) = ExtensionDecoder::decode(&buf).unwrap();
            assert_eq!(k, kind);
            assert_eq!(d, &data[..]);
            assert!(rest.is_empty());
            let mut de = Deserializer::new(&buf);
            assert!(matches!(de.decode_any().unwrap(), Token::Ext(k2, d2) if k2 == kind && d2 == &data[..]));
        }
    }
}

#[test]
fn float_bits_read_back() {
    for bits in [0u32, 1.5f32.to_bits(), f32::NAN.to_bits(), u32::MAX] {
        let mut buf = vec![];
        Float32Encoder(bits).encode(&mut buf).unwrap();
        assert_eq!(Float32Decoder::decode(&buf).unwrap().0, bits);
    }
    for bits in [0u64, 0.1f64.to_bits(), f64::NEG_INFINITY.to_bits()] {
        let mut buf = vec![];
        Float64Encoder(bits).encode(&mut buf).unwrap();
        assert_eq!(Float64Decoder::decode(&buf).unwrap().0, bits);
    }
}

#[test]
fn arrays_and_maps_read_back() {
    let items: Vec<u8> = (0..40).collect();
    let mut buf = vec![];
    ArrayEncoder(&items).encode(&mut buf).unwrap();
    assert_eq!(ArrayDecoder::<u8>::decode(&buf).unwrap().0, items);

    let pairs = [("one", true), ("two", false)];
    let mut buf = vec![];
    MapSliceEncoder::new(&pairs).encode(&mut buf).unwrap();
    let (back, _) = MapDecoder::<StrDecoder, bool>::decode(&buf).unwrap();
    assert_eq!(back, pairs.to_vec());

    for len in [0usize, 15, 16, 65535, 65536] {
        let mut ser = Serializer::new(LosslessMinimize);
        ser.serialize_seq(Some(len)).unwrap();
        ser.serialize_map(Some(len)).unwrap();
        let bytes = ser.into_bytes();
        let mut de = Deserializer::new(&bytes);
        assert!(matches!(de.decode_any().unwrap(), Token::ArrayHeader(n) if n == len));
        assert!(matches!(de.decode_any().unwrap(), Token::MapHeader(n) if n == len));
    }
}

#[test]
fn format_bytes_are_a_bijection() {
    for b in 0..=255u8 {
        assert_eq!(Format::from_byte(b).as_byte(), b);
    }
}

#[test]
fn variants_read_back() {
    let mut ser = Serializer::new(LosslessMinimize);
    ser.serialize_unit_variant("Unit").unwrap();
    ser.serialize_newtype_variant("Newtype").unwrap();
    ser.serialize_u8(27).unwrap();
    ser.serialize_struct_variant("Struct", 1).unwrap();
    ser.serialize_str("a").unwrap();
    ser.serialize_bool(false).unwrap();
    let bytes = ser.into_bytes();

    let mut de = Deserializer::new(&bytes);
    assert!(matches!(de.decode_enum_start().unwrap(), EnumStart::Unit("Unit")));
    assert!(matches!(de.decode_enum_start().unwrap(), EnumStart::Compound));
    assert!(matches!(de.decode_any().unwrap(), Token::Str("Newtype")));
    assert!(matches!(de.decode_any().unwrap(), Token::U8(27)));
    assert!(matches!(de.decode_enum_start().unwrap(), EnumStart::Compound));
    assert!(matches!(de.decode_any().unwrap(), Token::Str("Struct")));
    assert!(matches!(de.decode_any().unwrap(), Token::MapHeader(1)));
    assert!(matches!(de.decode_any().unwrap(), Token::Str("a")));
    assert!(matches!(de.decode_any().unwrap(), Token::Bool(false)));
    assert!(de.input.is_empty());
}

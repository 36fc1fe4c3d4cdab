use messagepack::decode::array::ArrayDecoder;
use messagepack::decode::bin::BinDecoder;
use messagepack::decode::extension::ExtensionDecoder;
use messagepack::decode::float::{Float32Decoder, Float64Decoder};
use messagepack::decode::map::MapDecoder;
use messagepack::decode::nil::NilDecoder;
use messagepack::decode::str::StrDecoder;
use messagepack::decode::{Decode, Error};
use messagepack::Format;

#[test]
fn decode_int_array() {
    let buf: &[u8] = &[0x95, 0x01, 0x02, 0x03, 0x04, 0x05];
    let (decoded, _) = ArrayDecoder::<u8>::decode(buf).unwrap();

    let expect: &[u8] = &[1, 2, 3, 4, 5];
    assert_eq!(decoded, expect)
}

#[test]
fn decode_true() {
    let buf: &[u8] = &[0xc3];
    let (decoded, rest) = bool::decode(buf).unwrap();
    let expect = true;
    assert_eq!(decoded, expect);
    assert_eq!(rest.len(), 0)
}

#[test]
fn decode_false() {
    let buf: &[u8] = &[0xc2];
    let (decoded, rest) = bool::decode(buf).unwrap();
    let expect: bool = false;
    assert_eq!(decoded, expect);
    assert_eq!(rest.len(), 0)
}

#[test]
fn decode_f32() {
    let buf: &[u8] = &[0xca, 0x42, 0xf6, 0xe9, 0x79];
    let (bits, _) = Float32Decoder::decode(buf).unwrap();
    let decoded = f32::from_bits(bits);
    let expect = 123.456;
    assert_eq!(decoded, expect);
}

#[test]
fn decode_f64() {
    let buf: &[u8] = &[0xcb, 0x40, 0xfe, 0x24, 0x0c, 0x9f, 0xcb, 0x0c, 0x02];
    let (bits, _) = Float64Decoder::decode(buf).unwrap();
    let decoded = f64::from_bits(bits);
    let expect = 123456.789012;
    assert_eq!(decoded, expect);
}

#[test]
fn decode_u8_fix_pos_int() {
    // FixPosInt
    let buf: &[u8] = &[0x00];
    let (decoded, _) = u8::decode(buf).unwrap();
    let expect = u8::MIN;
    assert_eq!(decoded, expect);

    let buf: &[u8] = &[0x7f];
    let (decoded, _) = u8::decode(buf).unwrap();
    let expect = 0x7f;
    assert_eq!(decoded, expect);
}

#[test]
fn decode_u8() {
    // Uint8
    let buf: &[u8] = &[0xcc, 0x00];
    let (decoded, _) = u8::decode(buf).unwrap();
    let expect = u8::MIN;
    assert_eq!(decoded, expect);

    let buf: &[u8] = &[0xcc, 0xff];
    let (decoded, _) = u8::decode(buf).unwrap();
    let expect = u8::MAX;
    assert_eq!(decoded, expect);
}

#[test]
fn decode_u16() {
    // Uint16
    let buf: &[u8] = &[0xcd, 0x00, 0x00];
    let (decoded, _) = u16::decode(buf).unwrap();
    let expect = u16::MIN;
    assert_eq!(decoded, expect);

    let buf: &[u8] = &[0xcd, 0x12, 0x34];
    let (decoded, _) = u16::decode(buf).unwrap();
    let expect = 0x1234;
    assert_eq!(decoded, expect);

    let buf: &[u8] = &[0xcd, 0xff, 0xff];
    let (decoded, _) = u16::decode(buf).unwrap();
    let expect = u16::MAX;
    assert_eq!(decoded, expect);
}

#[test]
fn decode_u32() {
    // Uint32
    let buf: &[u8] = &[0xce, 0x00, 0x00, 0x00, 0x00];
    let (decoded, _) = u32::decode(buf).unwrap();
    let expect = u32::MIN;
    assert_eq!(decoded, expect);

    let buf: &[u8] = &[0xce, 0x12, 0x34, 0x56, 0x78];
    let (decoded, _) = u32::decode(buf).unwrap();
    let expect = 0x12345678;
    assert_eq!(decoded, expect);

    let buf: &[u8] = &[0xce, 0xff, 0xff, 0xff, 0xff];
    let (decoded, _) = u32::decode(buf).unwrap();
    let expect = u32::MAX;
    assert_eq!(decoded, expect);
}

#[test]
fn decode_u64() {
    // Uint64
    let buf: &[u8] = &[0xcf, 0x00, 0x00, 0x00, 0x00, 0x00, 0x00, 0x00, 0x00];
    let (decoded, _) = u64::decode(buf).unwrap();
    let expect = u64::MIN;
    assert_eq!(decoded, expect);

    let buf: &[u8] = &[0xcf, 0x12, 0x34, 0x56, 0x78, 0x12, 0x34, 0x56, 0x78];
    let (decoded, _) = u64::decode(buf).unwrap();
    let expect = 0x1234567812345678;
    assert_eq!(decoded, expect);

    let buf: &[u8] = &[0xcf, 0xff, 0xff, 0xff, 0xff, 0xff, 0xff, 0xff, 0xff];
    let (decoded, _) = u64::decode(buf).unwrap();
    let expect = u64::MAX;
    assert_eq!(decoded, expect);
}

#[test]
fn decode_i8_fix_neg_int() {
    // FixNegInt
    let buf: &[u8] = &[0xff];
    let (decoded, _) = i8::decode(buf).unwrap();
    let expect = -1;
    assert_eq!(decoded, expect);

    let buf: &[u8] = &[0xe0];
    let (decoded, _) = i8::decode(buf).unwrap();
    let expect = -32;
    assert_eq!(decoded, expect);
}

#[test]
fn decode_i8() {
    // Int8
    let buf: &[u8] = &[0xd0, 0x80];
    let (decoded, _) = i8::decode(buf).unwrap();
    let expect = i8::MIN;
    assert_eq!(decoded, expect);

    let buf: &[u8] = &[0xd0, 0x7f];
    let (decoded, _) = i8::decode(buf).unwrap();
    let expect = i8::MAX;
    assert_eq!(decoded, expect);
}

#[test]
fn decode_i16() {
    // Int16
    let buf: &[u8] = &[0xd1, 0x80, 0x00];
    let (decoded, _) = i16::decode(buf).unwrap();
    let expect = i16::MIN;
    assert_eq!(decoded, expect);

    let buf: &[u8] = &[0xd1, 0x7f, 0xff];
    let (decoded, _) = i16::decode(buf).unwrap();
    let expect = i16::MAX;
    assert_eq!(decoded, expect);
}

#[test]
fn decode_i32() {
    let buf: &[u8] = &[0xd2, 0x80, 0x00, 0x00, 0x00];
    let (decoded, _) = i32::decode(buf).unwrap();
    let expect = i32::MIN;
    assert_eq!(decoded, expect);

    let buf: &[u8] = &[0xd2, 0x7f, 0xff, 0xff, 0xff];
    let (decoded, _) = i32::decode(buf).unwrap();
    let expect = i32::MAX;
    assert_eq!(decoded, expect);
}

#[test]
fn decode_i64() {
    let buf: &[u8] = &[0xd3, 0x80, 0x00, 0x00, 0x00, 0x00, 0x00, 0x00, 0x00];
    let (decoded, _) = i64::decode(buf).unwrap();
    let expect = i64::MIN;
    assert_eq!(decoded, expect);

    let buf: &[u8] = &[0xd3, 0x7f, 0xff, 0xff, 0xff, 0xff, 0xff, 0xff, 0xff];
    let (decoded, _) = i64::decode(buf).unwrap();
    let expect = i64::MAX;
    assert_eq!(decoded, expect);
}

#[test]
fn decode_nil() {
    let buf: &[u8] = &[0xc0];
    NilDecoder::decode(buf).unwrap();
}

#[test]
fn decode_option() {
    let buf: &[u8] = &[0xc0];
    let (decoded, _) = Option::<bool>::decode(buf).unwrap();
    assert_eq!(decoded, None);

    let buf: &[u8] = &[0xc3];
    let (decoded, _) = Option::<bool>::decode(buf).unwrap();
    assert_eq!(decoded, Some(true));
}

#[test]
fn decode_str() {
    let buf: &[u8] = &[
        0xab, 0x48, 0x65, 0x6c, 0x6c, 0x6f, 0x20, 0x57, 0x6f, 0x72, 0x6c, 0x64,
    ];

    let (decoded, rest) = StrDecoder::decode(buf).unwrap();
    let expect = "Hello World";
    assert_eq!(decoded, expect);
    assert_eq!(rest.len(), 0);
}

#[test]
fn decode_invalid_str() {
    let buf: &[u8] = &[0xa2, 0xc3, 0x28];
    let err = StrDecoder::decode(buf).unwrap_err();
    assert_eq!(err, Error::InvalidData);

    let buf: &[u8] = &[0xa1, 0x80];
    let err = StrDecoder::decode(buf).unwrap_err();
    assert_eq!(err, Error::InvalidData);
}

#[test]
fn decode_leaves_rest() {
    let buf: &[u8] = &[0xcd, 0x01, 0x00, 0xc3, 0x07];
    let (v, rest) = u16::decode(buf).unwrap();
    assert_eq!(v, 256);
    assert_eq!(rest, &[0xc3, 0x07]);
}

#[test]
fn decode_errors() {
    let empty: &[u8] = &[];
    assert_eq!(u8::decode(empty).unwrap_err(), Error::EofFormat);
    // a marker whose payload is cut short
    let cut: &[u8] = &[0xcd, 0x01];
    assert_eq!(u16::decode(cut).unwrap_err(), Error::EofData);
    // a marker of another family
    let other: &[u8] = &[0xc3];
    assert_eq!(u16::decode(other).unwrap_err(), Error::UnexpectedFormat);
    // the typed decoders take only the format of their own width
    let fix: &[u8] = &[0x05];
    assert_eq!(u16::decode(fix).unwrap_err(), Error::UnexpectedFormat);
    assert_eq!(i8::decode(fix).unwrap_err(), Error::UnexpectedFormat);
    // nil decoder
    assert_eq!(NilDecoder::decode(other).unwrap_err(), Error::UnexpectedFormat);
    // a string longer than the input
    let short_str: &[u8] = &[0xa3, 0x61];
    assert_eq!(StrDecoder::decode(short_str).unwrap_err(), Error::EofData);
}

#[test]
fn decode_bin_and_ext() {
    let buf: &[u8] = &[0xc4, 0x03, 0x01, 0x02, 0x03, 0xff];
    let (data, rest) = BinDecoder::decode(buf).unwrap();
    assert_eq!(data, &[1, 2, 3]);
    assert_eq!(rest, &[0xff]);

    let buf: &[u8] = &[0xd6, 0xff, 0x00, 0x00, 0x00, 0x00];
    let ((kind, data), rest) = ExtensionDecoder::decode(buf).unwrap();
    assert_eq!(kind, -1);
    assert_eq!(data, &[0, 0, 0, 0]);
    assert_eq!(rest.len(), 0);

    let buf: &[u8] = &[0xc7, 0x03, 0x05, 0x0a, 0x0b, 0x0c];
    let ((kind, data), _) = ExtensionDecoder::decode(buf).unwrap();
    assert_eq!(kind, 5);
    assert_eq!(data, &[0x0a, 0x0b, 0x0c]);
}

#[test]
fn decode_map_of_pairs() {
    // {"a": 1, "b": 2}
    let buf: &[u8] = &[0x82, 0xa1, 0x61, 0x01, 0xa1, 0x62, 0x02];
    let (pairs, rest) = MapDecoder::<StrDecoder, u8>::decode(buf).unwrap();
    assert_eq!(pairs, vec![("a", 1), ("b", 2)]);
    assert_eq!(rest.len(), 0);
}

#[test]
fn decode_format_marker() {
    let buf: &[u8] = &[0x93, 0x01];
    let (f, rest) = Format::decode(buf).unwrap();
    assert_eq!(f, Format::FixArray(3));
    assert_eq!(rest, &[0x01]);
    assert_eq!(Format::from_byte(0xe0), Format::NegativeFixInt(-32));
    assert_eq!(Format::NegativeFixInt(-1).as_byte(), 0xff);
    assert_eq!(Format::Str8.as_byte(), 0xd9);
}

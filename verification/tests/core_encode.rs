use messagepack::encode::array::{ArrayEncoder, ArrayFormatEncoder};
use messagepack::encode::bin::BinaryEncoder;
use messagepack::encode::extension::ExtensionEncoder;
use messagepack::encode::float::{Float32Encoder, Float64Encoder};
use messagepack::encode::integer::EncodeMinimizeInt;
use messagepack::encode::map::{MapEncoder, MapFormatEncoder, MapSliceEncoder};
use messagepack::encode::nil::NilEncoder;
use messagepack::encode::{Encode, Error};
use messagepack::Format;

#[test]
fn encode_pos_7bit() {
    let mut buf = vec![];
    0x00_u8.encode(&mut buf).unwrap();
    let expect: &[u8] = &[0x00];
    assert_eq!(buf, expect);

    let mut buf = vec![];
    0x7f_u8.encode(&mut buf).unwrap();
    let expect: &[u8] = &[0x7f];
    assert_eq!(buf, expect)
}

#[test]
fn encode_uint_8bit() {
    let mut buf = vec![];
    128_u8.encode(&mut buf).unwrap();
    let expect: &[u8] = &[Format::Uint8.as_byte(), 0x80];
    assert_eq!(buf, expect);

    let mut buf = vec![];
    255_u8.encode(&mut buf).unwrap();
    let expect: &[u8] = &[Format::Uint8.as_byte(), 0xff];
    assert_eq!(buf, expect);

    let mut buf = vec![];
    255_i16.encode(&mut buf).unwrap();
    let expect: &[u8] = &[Format::Uint8.as_byte(), 0xff];
    assert_eq!(buf, expect);
}

#[test]
fn encode_integers_minimized() {
    let mut buf = vec![];
    assert_eq!(0x1234_u32.encode(&mut buf), Ok(3));
    assert_eq!(buf, [0xcd, 0x12, 0x34]);

    let mut buf = vec![];
    assert_eq!((-1_i64).encode(&mut buf), Ok(1));
    assert_eq!(buf, [0xff]);

    let mut buf = vec![];
    assert_eq!((-33_i32).encode(&mut buf), Ok(2));
    assert_eq!(buf, [0xd0, 0xdf]);

    let mut buf = vec![];
    assert_eq!((-129_i16).encode(&mut buf), Ok(3));
    assert_eq!(buf, [0xd1, 0xff, 0x7f]);

    let mut buf = vec![];
    assert_eq!(i64::MIN.encode(&mut buf), Ok(9));
    assert_eq!(buf, [0xd3, 0x80, 0, 0, 0, 0, 0, 0, 0]);

    let mut buf = vec![];
    assert_eq!(u64::MAX.encode(&mut buf), Ok(9));
    assert_eq!(buf, [0xcf, 0xff, 0xff, 0xff, 0xff, 0xff, 0xff, 0xff, 0xff]);
}

#[test]
fn encode_128bit_out_of_range() {
    let mut buf = vec![];
    assert_eq!((u64::MAX as u128 + 1).encode(&mut buf), Err(Error::InvalidFormat));
    assert!(buf.is_empty());
    let mut buf = vec![];
    assert_eq!((i64::MIN as i128 - 1).encode(&mut buf), Err(Error::InvalidFormat));
    let mut buf = vec![];
    assert_eq!(EncodeMinimizeInt(-1 - (1i128 << 63)).encode(&mut buf), Err(Error::InvalidFormat));
    let mut buf = vec![];
    assert_eq!(EncodeMinimizeInt(300).encode(&mut buf), Ok(3));
    assert_eq!(buf, [0xcd, 0x01, 0x2c]);
}

#[test]
fn encode_nil_bool_str_bin() {
    let mut buf = vec![];
    NilEncoder.encode(&mut buf).unwrap();
    ().encode(&mut buf).unwrap();
    true.encode(&mut buf).unwrap();
    false.encode(&mut buf).unwrap();
    "ab".encode(&mut buf).unwrap();
    BinaryEncoder(&[7, 8]).encode(&mut buf).unwrap();
    assert_eq!(buf, [0xc0, 0xc0, 0xc3, 0xc2, 0xa2, b'a', b'b', 0xc4, 0x02, 7, 8]);

    let long = "x".repeat(40);
    let mut buf = vec![];
    assert_eq!(long.as_str().encode(&mut buf), Ok(42));
    assert_eq!(&buf[..2], &[0xd9, 40]);
}

#[test]
fn encode_floats_by_bits() {
    let mut buf = vec![];
    Float32Encoder(12.34f32.to_bits()).encode(&mut buf).unwrap();
    assert_eq!(buf, [0xca, 0x41, 0x45, 0x70, 0xa4]);
    let mut buf = vec![];
    Float64Encoder(1.0f64.to_bits()).encode(&mut buf).unwrap();
    assert_eq!(buf, [0xcb, 0x3f, 0xf0, 0, 0, 0, 0, 0, 0]);
}

#[test]
fn encode_array_and_map() {
    let mut buf = vec![];
    ArrayEncoder(&[1u8, 2, 3]).encode(&mut buf).unwrap();
    assert_eq!(buf, [0x93, 1, 2, 3]);

    let mut buf = vec![];
    MapSliceEncoder::new(&[("a", 1u8), ("b", 2u8)]).encode(&mut buf).unwrap();
    assert_eq!(buf, [0x82, 0xa1, 0x61, 0x01, 0xa1, 0x62, 0x02]);

    let mut buf = vec![];
    MapEncoder::new(vec![(1u8, true)]).encode(&mut buf).unwrap();
    assert_eq!(buf, [0x81, 0x01, 0xc3]);

    let mut buf = vec![];
    ArrayFormatEncoder(16).encode(&mut buf).unwrap();
    MapFormatEncoder::new(0x1_0000).encode(&mut buf).unwrap();
    assert_eq!(buf, [0xdc, 0x00, 0x10, 0xdf, 0x00, 0x01, 0x00, 0x00]);
}

#[test]
fn encode_extensions() {
    let mut buf = vec![];
    assert_eq!(ExtensionEncoder::new(123, &[0x12]).encode(&mut buf), Ok(3));
    assert_eq!(buf, [0xd4, 123, 0x12]);

    let mut buf = vec![];
    ExtensionEncoder::new(-1, &[0, 0, 0, 0]).encode(&mut buf).unwrap();
    assert_eq!(buf, [0xd6, 0xff, 0, 0, 0, 0]);

    let mut buf = vec![];
    ExtensionEncoder::new(5, &[1, 2, 3]).encode(&mut buf).unwrap();
    assert_eq!(buf, [0xc7, 0x03, 0x05, 1, 2, 3]);

    let data = vec![0u8; 0x100];
    let mut buf = vec![];
    assert_eq!(ExtensionEncoder::new(1, &data).encode(&mut buf), Ok(4 + 0x100));
    assert_eq!(&buf[..4], &[0xc8, 0x01, 0x00, 0x01]);
}

#[test]
fn encode_to_short_slice() {
    let mut small = [0u8; 2];
    assert_eq!(0x1234_u16.encode_to_slice(&mut small), Err(Error::BufferFull));
    assert_eq!(small, [0xcd, 0x12]);
    let mut big = [0u8; 4];
    assert_eq!(0x1234_u16.encode_to_slice(&mut big), Ok(3));
    assert_eq!(big, [0xcd, 0x12, 0x34, 0x00]);
}

#[test]
fn encode_array_stops_at_failing_element() {
    let mut buf = vec![];
    let items = [1u128, u128::MAX, 2u128];
    assert_eq!(ArrayEncoder(&items).encode(&mut buf), Err(Error::InvalidFormat));
    assert_eq!(buf, [0x93, 0x01]);

    let mut slice = [0xaa_u8; 4];
    assert_eq!(ArrayEncoder(&items).encode_to_slice(&mut slice), Err(Error::InvalidFormat));
    assert_eq!(slice, [0x93, 0x01, 0xaa, 0xaa]);
}

#[test]
fn encode_map_stops_at_failing_pair() {
    let mut buf = vec![];
    let pairs = [(1u128, 2u128), (u128::MAX, 3u128), (4u128, 5u128)];
    assert_eq!(MapSliceEncoder::new(&pairs).encode(&mut buf), Err(Error::InvalidFormat));
    assert_eq!(buf, [0x83, 0x01, 0x02, 0x03]);

    let mut buf = vec![];
    let pairs = [(1u128, u128::MAX), (4u128, 5u128)];
    assert_eq!(MapEncoder::new(pairs.to_vec()).encode(&mut buf), Err(Error::InvalidFormat));
    assert_eq!(buf, [0x82, 0x01]);
}

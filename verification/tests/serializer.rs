use messagepack::decode::extension::ExtensionDecoder;
use messagepack::decode::Decode;
use messagepack::encode::extension::{ext_header_parts, ExtensionEncoder};
use messagepack::encode::Encode;
use messagepack::encode::Error as CoreError;
use messagepack::ser::ext::{SerializeExt, SerializeExtSeq};
use messagepack::ser::num::{AggressiveMinimize, Exact, LosslessMinimize};
use messagepack::ser::{Error, Serializer};

/// Copies what a serializer wrote into a buffer of 128 bytes, as `to_slice` does.
fn to_buf<N>(ser: &Serializer<N>, buf: &mut [u8; 128]) -> usize
where
    N: messagepack::ser::num::NumEncoder,
{
    ser.write_to_slice(buf).unwrap()
}

fn lossless() -> Serializer<LosslessMinimize> {
    Serializer::new(LosslessMinimize)
}

#[test]
fn encode_nil() {
    let mut ser = lossless();
    ser.serialize_none().unwrap();
    let buf = &mut [0u8; 128];
    let len = to_buf(&ser, buf);
    assert_eq!(buf[..len], [0xc0]);
}

#[test]
fn encode_unit() {
    let mut ser = lossless();
    ser.serialize_unit().unwrap();
    let buf = &mut [0u8; 128];
    let len = to_buf(&ser, buf);
    assert_eq!(buf[..len], [0xc0]);
}

#[test]
fn encode_unit_struct() {
    let mut ser = lossless();
    ser.serialize_unit_struct().unwrap();
    let buf = &mut [0u8; 128];
    let len = to_buf(&ser, buf);
    assert_eq!(buf[..len], [0xc0]);
}

#[test]
fn encode_false() {
    let mut ser = lossless();
    ser.serialize_bool(false).unwrap();
    let buf = &mut [0u8; 128];
    let len = to_buf(&ser, buf);
    assert_eq!(buf[..len], [0xc2]);
}

#[test]
fn encode_true() {
    let mut ser = lossless();
    ser.serialize_bool(true).unwrap();
    let buf = &mut [0u8; 128];
    let len = to_buf(&ser, buf);
    assert_eq!(buf[..len], [0xc3]);
}

#[test]
fn encode_bytes() {
    let mut ser = lossless();
    ser.serialize_bytes(&[5, 4, 3, 2, 1, 0]).unwrap();
    let buf = &mut [0u8; 128];
    let len = to_buf(&ser, buf);
    assert_eq!(buf[..len], [0xc4, 0x06, 0x05, 0x04, 0x03, 0x02, 0x01, 0x00]);
}

#[test]
fn encode_enum() {
    let buf = &mut [0u8; 128];
    {
        let mut ser = lossless();
        ser.serialize_unit_variant("Bool").unwrap();
        let len = to_buf(&ser, buf);
        assert_eq!(buf[..len], [0xa4, b'B', b'o', b'o', b'l'])
    }
    {
        let mut ser = lossless();
        ser.serialize_unit_variant("Int").unwrap();
        let len = to_buf(&ser, buf);
        assert_eq!(buf[..len], [0xa3, b'I', b'n', b't'])
    }
    {
        let mut ser = lossless();
        ser.serialize_unit_variant("Float").unwrap();
        let len = to_buf(&ser, buf);
        assert_eq!(buf[..len], [0xa5, b'F', b'l', b'o', b'a', b't'])
    }
}

#[test]
fn encode_newtype_struct() {
    let mut ser = lossless();
    ser.serialize_bytes(&[5, 4, 3, 2, 1]).unwrap();
    let buf = &mut [0u8; 128];
    let len = to_buf(&ser, buf);
    assert_eq!(buf[..len], [0xc4, 0x05, 0x05, 0x04, 0x03, 0x02, 0x01])
}

#[test]
fn encode_newtype_variant() {
    let buf = &mut [0u8; 128];
    {
        let mut ser = lossless();
        ser.serialize_newtype_variant("Bool").unwrap();
        ser.serialize_bool(true).unwrap();
        let len = to_buf(&ser, buf);
        assert_eq!(
            buf[..len],
            [
                0x81, // fixmap len = 1
                0xa4, // fixstr len = 4
                b'B', b'o', b'o', b'l', 0xc3 // true
            ]
        )
    }
    {
        let mut ser = lossless();
        ser.serialize_newtype_variant("Int").unwrap();
        ser.serialize_u8(128).unwrap();
        let len = to_buf(&ser, buf);
        assert_eq!(
            buf[..len],
            [
                0x81, // fixmap len = 1
                0xa3, b'I', b'n', b't', // fixstr "Int"
                0xcc, 0x80 // uint8 128
            ]
        )
    }
    {
        let mut ser = lossless();
        ser.serialize_newtype_variant("Float").unwrap();
        ser.serialize_f32_bits(12.34f32.to_bits()).unwrap();
        let len = to_buf(&ser, buf);
        assert_eq!(
            buf[..len],
            [
                0x81, // fixmap len = 1
                0xa5, b'F', b'l', b'o', b'a', b't', // fixstr "Float"
                0xca, 0x41, 0x45, 0x70, 0xa4 // float32 12.34
            ]
        )
    }
}

#[test]
fn encode_struct_variant() {
    let buf = &mut [0u8; 128];
    let mut ser = lossless();
    ser.serialize_struct_variant("Bool", 2).unwrap();
    ser.serialize_str("flag").unwrap();
    ser.serialize_bool(false).unwrap();
    ser.serialize_str("msg").unwrap();
    ser.serialize_str("hi").unwrap();
    let len = to_buf(&ser, buf);
    assert_eq!(
        buf[..len],
        [
            0x81, // fixmap len = 1
            0xa4, // fixstr len = 4
            b'B', b'o', b'o', b'l', // top
            0x82, // fixmap len = 2
            0xa4, // fixstr len = 4
            b'f', b'l', b'a', b'g', // key
            0xc2, // false
            0xa3, // fixstr len = 3
            b'm', b's', b'g', //key
            0xa2, // fixstr len = 2
            b'h', b'i',
        ]
    )
}

#[test]
fn encode_tuple_struct() {
    let mut ser = lossless();
    ser.serialize_tuple_struct(3).unwrap();
    ser.serialize_i16(1).unwrap();
    ser.serialize_u32(2).unwrap();
    ser.serialize_i32(3).unwrap();
    let buf = &mut [0u8; 128];
    let len = to_buf(&ser, buf);
    assert_eq!(
        buf[..len],
        [
            0x93, // fixarr len = 3
            0x01, // positive fixint 1
            0x02, // positive fixint 2
            0x03, // positive fixint 3
        ]
    );
}

#[test]
fn encode_pos_fix_int() {
    let mut ser = lossless();
    ser.serialize_u8(127).unwrap();
    let buf = &mut [0u8; 128];
    let len = to_buf(&ser, buf);
    assert_eq!(buf[..len], [0x7f]);
}

#[test]
fn encode_neg_fix_int() {
    let mut ser = lossless();
    ser.serialize_i8(-32).unwrap();
    let buf = &mut [0u8; 128];
    let len = to_buf(&ser, buf);
    assert_eq!(buf[..len], [0xe0]);
}

#[test]
fn exact_keeps_the_width() {
    let mut ser = Serializer::new(Exact);
    ser.serialize_u8(1).unwrap();
    assert_eq!(ser.writer, [1]);

    let mut ser = Serializer::new(Exact);
    ser.serialize_u16(1).unwrap();
    assert_eq!(ser.writer, [0xcd, 0x00, 0x01]);

    let mut ser = Serializer::new(Exact);
    ser.serialize_i32(-1).unwrap();
    assert_eq!(ser.writer, [0xd2, 0xff, 0xff, 0xff, 0xff]);

    let mut ser = Serializer::new(Exact);
    ser.serialize_i8(-1).unwrap();
    assert_eq!(ser.writer, [0xff]);

    let mut ser = Serializer::new(Exact);
    ser.serialize_u128(5).unwrap();
    assert_eq!(ser.writer, [0xcf, 0, 0, 0, 0, 0, 0, 0, 5]);

    let mut ser = Serializer::new(Exact);
    assert!(matches!(
        ser.serialize_i128(i128::MAX),
        Err(Error::Encode(CoreError::InvalidFormat))
    ));
    assert!(ser.writer.is_empty());
}

#[test]
fn minimizers_shrink_integers() {
    let mut ser = Serializer::new(LosslessMinimize);
    ser.serialize_u16(1).unwrap();
    assert_eq!(ser.writer, [1]);

    let mut ser = Serializer::new(AggressiveMinimize);
    ser.serialize_u16(1).unwrap();
    assert_eq!(ser.writer, [1]);

    let mut ser = Serializer::new(LosslessMinimize);
    ser.serialize_i64(-200).unwrap();
    assert_eq!(ser.writer, [0xd1, 0xff, 0x38]);

    let mut ser = Serializer::new(LosslessMinimize);
    ser.serialize_u128(u64::MAX as u128).unwrap();
    assert_eq!(ser.writer, [0xcf, 0xff, 0xff, 0xff, 0xff, 0xff, 0xff, 0xff, 0xff]);

    let mut ser = Serializer::new(LosslessMinimize);
    assert!(matches!(
        ser.serialize_u128(u64::MAX as u128 + 1),
        Err(Error::Encode(CoreError::InvalidFormat))
    ));
    ser.serialize_i128(-5).unwrap();
    assert_eq!(ser.writer, [0xfb]);
    assert_eq!(ser.current_length(), 1);
}

#[test]
fn unknown_length_is_refused() {
    let mut ser = lossless();
    assert!(matches!(ser.serialize_seq(None), Err(Error::SeqLenNone)));
    assert!(matches!(ser.serialize_map(None), Err(Error::SeqLenNone)));
    assert!(ser.writer.is_empty());
    ser.serialize_seq(Some(2)).unwrap();
    ser.serialize_map(Some(1)).unwrap();
    ser.serialize_tuple(0).unwrap();
    ser.serialize_struct(17).unwrap();
    assert_eq!(ser.into_bytes(), vec![0x92, 0x81, 0x90, 0xde, 0x00, 0x11]);
}

#[test]
fn tuple_variant_header() {
    let mut ser = lossless();
    ser.serialize_tuple_variant("Tuple", 2).unwrap();
    assert_eq!(ser.writer, [0x81, 0xa5, b'T', b'u', b'p', b'l', b'e', 0x92]);
}

#[test]
fn slice_too_short() {
    let mut ser = lossless();
    ser.serialize_str("hello").unwrap();
    let mut small = [0u8; 3];
    assert!(matches!(
        ser.write_to_slice(&mut small),
        Err(Error::Encode(CoreError::BufferFull))
    ));
    assert_eq!(small, [0xa5, b'h', b'e']);
}

#[test]
fn extension_bytes_are_raw() {
    // what an extension of type 123 carrying [0x12] hands over
    let mut ext = SerializeExt::new();
    {
        let mut seq = SerializeExtSeq::new(&mut ext);
        seq.serialize_element(&[0xd4]).unwrap();
        seq.serialize_element(&[123]).unwrap();
        seq.serialize_element(&[0x12]).unwrap();
        seq.end().unwrap();
    }
    assert_eq!(ext.length(), 3);
    let mut ser = lossless();
    ser.serialize_ext(&ext).unwrap();
    assert_eq!(ser.writer, [0xd4, 123, 0x12]);

    let mut ext = SerializeExt::new();
    ext.serialize_u8(0xc7).unwrap();
    ext.serialize_u16(0x0102).unwrap();
    ext.serialize_u32(0x03040506).unwrap();
    ext.serialize_u64(7).unwrap();
    ext.serialize_i8(-1).unwrap();
    ext.serialize_bytes(&[9]).unwrap();
    assert_eq!(ext.writer, [0xc7, 1, 2, 3, 4, 5, 6, 0, 0, 0, 0, 0, 0, 0, 7, 0xff, 9]);
    match ext.unexpected() {
        Error::Custom(m) => assert_eq!(m, "unexpected value"),
        _ => panic!("expected a custom error"),
    }
}

#[test]
fn floats_by_bits() {
    let mut ser = lossless();
    ser.serialize_f64_bits(1.0f64.to_bits()).unwrap();
    ser.serialize_f32_bits(1.0f32.to_bits()).unwrap();
    assert_eq!(
        ser.writer,
        [0xcb, 0x3f, 0xf0, 0, 0, 0, 0, 0, 0, 0xca, 0x3f, 0x80, 0x00, 0x00]
    );
}

#[test]
fn encode_value_ref_extension_fixext1() {
    let kind: i8 = 10;
    let mut ext = SerializeExt::new();
    let (marker, field, type_byte) = ext_header_parts(1, kind).unwrap();
    assert!(field.is_empty());
    ext.serialize_bytes(&[marker]).unwrap();
    ext.serialize_bytes(&[type_byte]).unwrap();
    ext.serialize_bytes(&[0x12]).unwrap();
    let mut ser = lossless();
    ser.serialize_ext(&ext).unwrap();
    let mut buf = [0u8; 3];
    let len = ser.write_to_slice(&mut buf).unwrap();
    assert_eq!(len, 3);
    assert_eq!(buf, [0xd4, kind as u8, 0x12]);
}

#[test]
fn decode_then_reencode_value_ref_extension_timestamp32_roundtrip() {
    let ts32: &[u8] = &[0xd6, 0xff, 0x00, 0x00, 0x00, 0x00];
    let ((kind, data), _) = ExtensionDecoder::decode(ts32).unwrap();
    assert_eq!(kind, -1);
    assert_eq!(data, &[0x00, 0x00, 0x00, 0x00]);

    // Re-encode and compare with original bytes
    let mut buf = [0u8; 6];
    let len = ExtensionEncoder::new(kind, data).encode_to_slice(&mut buf).unwrap();
    assert_eq!(&buf[..len], ts32);
}

#[test]
fn extension_header_pieces() {
    assert_eq!(ext_header_parts(4, -1), Some((0xd6, vec![], 0xff)));
    assert_eq!(ext_header_parts(3, 5), Some((0xc7, vec![3], 5)));
    assert_eq!(ext_header_parts(0x100, 1), Some((0xc8, vec![1, 0], 1)));
    assert_eq!(ext_header_parts(0x1_0000, 1), Some((0xc9, vec![0, 1, 0, 0], 1)));
}

#[test]
fn chars_as_strings() {
    for c in ['a', 'é', '€', '😀', '\u{7f}', '\u{80}', '\u{7ff}', '\u{800}', '\u{ffff}', '\u{10000}', '\u{10ffff}'] {
        let mut ser = lossless();
        ser.serialize_char(c).unwrap();
        let mut expected = lossless();
        expected.serialize_str(c.to_string().as_str()).unwrap();
        assert_eq!(ser.writer, expected.writer);
    }
    let mut ser = lossless();
    ser.serialize_char('é').unwrap();
    assert_eq!(ser.writer, [0xa2, 0xc3, 0xa9]);
}

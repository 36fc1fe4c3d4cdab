use messagepack::de::{Deserializer, Token};
use messagepack::ser::num::LosslessMinimize;
use messagepack::ser::Serializer;

const BUF: &[u8] = &[
    0x83, 0xa7, 0x63, 0x6f, 0x6d, 0x70, 0x61, 0x63, 0x74, 0xc3, 0xa6, 0x73, 0x63, 0x68, 0x65,
    0x6d, 0x61, 0x00, 0xa4, 0x6c, 0x65, 0x73, 0x73, 0xa9, 0x74, 0x68, 0x61, 0x6e, 0x20, 0x6a,
    0x73, 0x6f, 0x6e,
];

#[derive(Debug, PartialEq)]
struct Data<'a> {
    compact: bool,
    schema: u8,
    less: &'a str,
}

#[test]
fn struct_reads_and_writes_as_a_map() {
    // reading: a map from field names to values
    let mut de = Deserializer::new(BUF);
    let n = match de.decode_any().unwrap() {
        Token::MapHeader(n) => n,
        other => panic!("not a map: {:?}", other),
    };
    let mut data = Data { compact: false, schema: 1, less: "" };
    for _ in 0..n {
        match (de.decode_any().unwrap(), de.decode_any().unwrap()) {
            (Token::Str("compact"), Token::Bool(b)) => data.compact = b,
            (Token::Str("schema"), Token::U8(v)) => data.schema = v,
            (Token::Str("less"), Token::Str(s)) => data.less = s,
            other => panic!("unexpected entry: {:?}", other),
        }
    }
    let expected = Data { compact: true, schema: 0, less: "than json" };
    assert_eq!(data, expected);

    // writing it back gives the same bytes
    let mut ser = Serializer::new(LosslessMinimize);
    ser.serialize_struct(3).unwrap();
    ser.serialize_str("compact").unwrap();
    ser.serialize_bool(expected.compact).unwrap();
    ser.serialize_str("schema").unwrap();
    ser.serialize_u8(expected.schema).unwrap();
    ser.serialize_str("less").unwrap();
    ser.serialize_str(expected.less).unwrap();
    let mut out = [0u8; 33];
    let len = ser.write_to_slice(&mut out).unwrap();
    assert_eq!(&out[..len], BUF);
}

use messagepack::decode::extension::ExtensionDecoder;
use messagepack::decode::Decode;
use messagepack::encode::extension::ExtensionEncoder;
use messagepack::encode::Encode;
use messagepack::timestamp::{Timestamp32, Timestamp64, Timestamp96, TIMESTAMP_EXT_TYPE};

#[test]
fn timestamp32_bytes() {
    let ts = Timestamp32::new(123456);
    let bytes = ts.to_bytes();
    assert_eq!(bytes, [0x00, 0x01, 0xe2, 0x40]);
    assert_eq!(Timestamp32::from_bytes(&bytes), Some(ts));
    assert_eq!(Timestamp32::from_bytes(&[0, 0, 0]), None);
}

#[test]
fn timestamp64_bytes() {
    let ts = Timestamp64::new(123456, 789).unwrap();
    assert_eq!((ts.seconds(), ts.nanos()), (123456, 789));
    let bytes = ts.to_bytes();
    let packed = (789u64 << 34) | 123456;
    assert_eq!(bytes, packed.to_be_bytes());
    assert_eq!(Timestamp64::from_bytes(&bytes), Some(ts));
    assert_eq!(Timestamp64::new(1 << 34, 0), None);
    assert_eq!(Timestamp64::new(0, 1_000_000_000), None);
    // nanoseconds of a second or more are refused
    let too_many = (1_000_000_000u64 << 34).to_be_bytes();
    assert_eq!(Timestamp64::from_bytes(&too_many), None);
}

#[test]
fn timestamp96_bytes() {
    let ts = Timestamp96::new(-123456, 789).unwrap();
    assert_eq!((ts.seconds(), ts.nanos()), (-123456, 789));
    let bytes = ts.to_bytes();
    let mut expected = 789u32.to_be_bytes().to_vec();
    expected.extend_from_slice(&(-123456i64).to_be_bytes());
    assert_eq!(bytes, expected);
    assert_eq!(Timestamp96::from_bytes(&bytes), Some(ts));
    assert_eq!(Timestamp96::new(0, 1_000_000_000), None);
    assert_eq!(Timestamp96::from_bytes(&bytes[..11]), None);
}

#[test]
fn timestamp_as_extension() {
    // timestamp 32 of 0 seconds
    let ts32: &[u8] = &[0xd6, 0xff, 0x00, 0x00, 0x00, 0x00];
    let ((kind, data), _) = ExtensionDecoder::decode(ts32).unwrap();
    assert_eq!(kind, TIMESTAMP_EXT_TYPE);
    let ts = Timestamp32::from_bytes(data).unwrap();
    assert_eq!(ts.seconds(), 0);

    let mut buf = vec![];
    ExtensionEncoder::new(TIMESTAMP_EXT_TYPE, &ts.to_bytes()).encode(&mut buf).unwrap();
    assert_eq!(buf, ts32);
}

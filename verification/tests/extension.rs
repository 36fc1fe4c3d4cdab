use messagepack::extension::FixedExtension;

#[test]
fn fixed_extension_holds_shorter_data() {
    let ext = FixedExtension::<6>::new(-1, &[0, 0, 0, 0]).unwrap();
    assert_eq!(ext.kind(), -1);
    assert_eq!(ext.as_slice(), &[0, 0, 0, 0]);
}

#[test]
fn fixed_extension_refuses_longer_data() {
    assert!(FixedExtension::<3>::new(-1, &[0, 0, 0, 0]).is_none());
    assert!(FixedExtension::<4>::new(5, &[1, 2, 3, 4]).is_some());
    assert_eq!(FixedExtension::<0>::new(5, &[]).unwrap().as_slice(), &[] as &[u8]);
}

#[test]
fn fixed_extension_from_full_buffer() {
    let ext = FixedExtension::new_fixed(123, [0x12]);
    assert_eq!(ext.kind(), 123);
    assert_eq!(ext.as_slice(), &[0x12]);
}

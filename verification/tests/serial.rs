use certkit::generator::X509Generator;

#[test]
fn test_negative_serial() {
    // I guess that's enough to get a random negative number
    for _ in 0..1000 {
        assert!(
            X509Generator::random_serial().unwrap() > 0,
            "All serials should be positive"
        );
    }
}

#[test]
fn test_serial_from_bytes_small() {
    let bytes = [0u8, 0, 0, 0, 0, 0, 0, 5];
    assert_eq!(X509Generator::serial_from_bytes(&bytes), 2);
}

#[test]
fn test_serial_from_bytes_top_bit_cleared() {
    let bytes = [0xffu8; 8];
    assert_eq!(X509Generator::serial_from_bytes(&bytes), 0x7fff_ffff_ffff_ffff);
}

#[test]
fn test_serial_from_bytes_zero_entropy() {
    let zero = [0u8; 8];
    assert_eq!(X509Generator::serial_from_bytes(&zero), 0);
    let one = [0u8, 0, 0, 0, 0, 0, 0, 1];
    assert_eq!(X509Generator::serial_from_bytes(&one), 0);
}

#[test]
fn test_serial_from_bytes_big_endian() {
    let bytes = [0u8, 0, 0, 0, 0, 0, 1, 0];
    // 256 >> 1
    assert_eq!(X509Generator::serial_from_bytes(&bytes), 128);
}

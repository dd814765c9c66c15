use badchain::utils::{append_decimal, append_u64_le, hash_to_str, leading_u64, sha256};

#[test]
fn hex_rendering_drops_leading_zero_of_each_byte() {
    assert_eq!(hash_to_str(&[0x00, 0x0f, 0x10, 0xab]), "0f10ab");
    assert_eq!(hash_to_str(&[]), "");
    assert_eq!(hash_to_str(&[0xff, 0x01]), "ff1");
}

#[test]
fn sha256_of_abc() {
    let d = sha256(b"abc");
    assert_eq!(d.len(), 32);
    let hex: String = d.iter().map(|b| format!("{:02x}", b)).collect();
    assert_eq!(
        hex,
        "ba7816bf8f01cfea414140de5dae2223b00361a396177a9cb410ff61f20015ad"
    );
}

#[test]
fn sha256_of_empty_input() {
    let d = sha256(&[]);
    assert_eq!(d[0], 0xe3);
    assert_eq!(d[31], 0x55);
}

#[test]
fn decimal_digits() {
    let mut out = vec![7u8];
    append_decimal(&mut out, 0);
    append_decimal(&mut out, 1234567890);
    assert_eq!(out, b"\x0701234567890".to_vec());
    let mut max = Vec::new();
    append_decimal(&mut max, u64::MAX);
    assert_eq!(max, b"18446744073709551615".to_vec());
}

#[test]
fn little_endian_bytes() {
    let mut out = Vec::new();
    append_u64_le(&mut out, 0x0102030405060708);
    assert_eq!(out, vec![8, 7, 6, 5, 4, 3, 2, 1]);
    let mut neg = Vec::new();
    append_u64_le(&mut neg, u64::MAX);
    assert_eq!(neg, vec![0xff; 8]);
}

#[test]
fn leading_bytes_read_big_endian() {
    let h = [0, 0, 0, 1, 0, 0, 0, 2, 9, 9];
    assert_eq!(leading_u64(&h), (1u64 << 32) + 2);
    assert_eq!(leading_u64(&[0xff; 8]), u64::MAX);
}

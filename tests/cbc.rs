use aes::cipher::{BlockDecrypt, BlockEncrypt};
use aes::mode::Cbc;
use aes::utils::padding::{NoPadding, Pkcs7Padding};

#[test]
fn cbc_round_trip_every_length() {
    let key = [0x2b; 16];
    let iv = [0x0f; 16];
    for n in 0..50usize {
        let plaintext: Vec<u8> = (0..n as u8).map(|b| b.wrapping_mul(13)).collect();
        let ciphertext = Cbc::new(&key, &iv).encrypt::<Pkcs7Padding>(&plaintext);
        assert_eq!(ciphertext.len(), (n / 16 + 1) * 16);
        assert_eq!(Cbc::new(&key, &iv).decrypt::<Pkcs7Padding>(&ciphertext), Ok(plaintext));
    }
}

#[test]
fn cbc_sp800_38a_vector() {
    // NIST SP 800-38A, F.2.1, first two blocks
    let key = [
        0x2b, 0x7e, 0x15, 0x16, 0x28, 0xae, 0xd2, 0xa6, 0xab, 0xf7, 0x15, 0x88, 0x09, 0xcf, 0x4f,
        0x3c,
    ];
    let iv: Vec<u8> = (0..16).collect();
    let plaintext = [
        0x6b, 0xc1, 0xbe, 0xe2, 0x2e, 0x40, 0x9f, 0x96, 0xe9, 0x3d, 0x7e, 0x11, 0x73, 0x93, 0x17,
        0x2a, 0xae, 0x2d, 0x8a, 0x57, 0x1e, 0x03, 0xac, 0x9c, 0x9e, 0xb7, 0x6f, 0xac, 0x45, 0xaf,
        0x8e, 0x51,
    ];
    let expected = [
        0x76, 0x49, 0xab, 0xac, 0x81, 0x19, 0xb2, 0x46, 0xce, 0xe9, 0x8e, 0x9b, 0x12, 0xe9, 0x19,
        0x7d, 0x50, 0x86, 0xcb, 0x9b, 0x50, 0x72, 0x19, 0xee, 0x95, 0xdb, 0x11, 0x3a, 0x91, 0x76,
        0x78, 0xb2,
    ];
    let mut cipher = Cbc::new(&key, &iv);
    assert_eq!(cipher.encrypt::<NoPadding>(&plaintext), expected);
    let mut cipher = Cbc::new(&key, &iv);
    assert_eq!(cipher.encrypt::<NoPadding>(&plaintext[..16]), expected[..16]);
    assert_eq!(cipher.encrypt::<NoPadding>(&plaintext[16..]), expected[16..]);
    cipher.set_iv(&iv);
    assert_eq!(cipher.decrypt::<NoPadding>(&expected), Ok(plaintext.to_vec()));
}

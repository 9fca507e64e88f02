use aes::aes::{decrypt_core, encrypt_core, key_expansion};
use aes::cipher::{SingleBlockDecrypt, SingleBlockEncrypt};
use aes::state::State;
use aes::AES;

#[test]
fn key_expansion_128_zero_key() {
    let mut output: [State; 11] = [[[0; 4]; 4]; 11];
    key_expansion(&[0; 16], &mut output);
    assert_eq!(output[1], [[0x62, 0x63, 0x63, 0x63]; 4]);
    assert_eq!(
        output[2],
        [[0x9b, 0x98, 0x98, 0xc9], [0xf9, 0xfb, 0xfb, 0xaa], [0x9b, 0x98, 0x98, 0xc9], [0xf9, 0xfb, 0xfb, 0xaa]]
    );
    assert_eq!(
        output[10],
        [[0xb4, 0xef, 0x5b, 0xcb], [0x3e, 0x92, 0xe2, 0x11], [0x23, 0xe9, 0x51, 0xcf], [0x6f, 0x8f, 0x18, 0x8e]]
    );
}

#[test]
fn key_expansion_256() {
    let key: Vec<u8> = (0..32).collect();
    let mut output: [State; 15] = [[[0; 4]; 4]; 15];
    key_expansion(&key, &mut output);
    assert_eq!(
        output[2],
        [[0xa5, 0x73, 0xc2, 0x9f], [0xa1, 0x76, 0xc4, 0x98], [0xa9, 0x7f, 0xce, 0x93], [0xa5, 0x72, 0xc0, 0x9c]]
    );
    assert_eq!(
        output[14],
        [[0x24, 0xfc, 0x79, 0xcc], [0xbf, 0x09, 0x79, 0xe9], [0x37, 0x1a, 0xc2, 0x3c], [0x6d, 0x68, 0xde, 0x36]]
    );
}

#[test]
fn key_expansion_192() {
    // FIPS-197 appendix A.2
    let key = [
        0x8e, 0x73, 0xb0, 0xf7, 0xda, 0x0e, 0x64, 0x52, 0xc8, 0x10, 0xf3, 0x2b, 0x80, 0x90, 0x79,
        0xe5, 0x62, 0xf8, 0xea, 0xd2, 0x52, 0x2c, 0x6b, 0x7b,
    ];
    let mut output: [State; 13] = [[[0; 4]; 4]; 13];
    key_expansion(&key, &mut output);
    assert_eq!(output[1][2], [0xfe, 0x0c, 0x91, 0xf7]);
    assert_eq!(output[12][3], [0x01, 0x00, 0x22, 0x02]);
}

#[test]
fn aes_known_answer() {
    assert_eq!(
        AES::new(b"0123456789123456").encrypt(b"0987654321123456"),
        [215, 88, 51, 56, 75, 78, 81, 214, 230, 55, 134, 27, 39, 58, 179, 70]
    );
    assert_eq!(
        AES::new(b"0123456789123456").decrypt(&AES::new(b"0123456789123456").encrypt(b"0987654321123456")),
        b"0987654321123456"
    );
    assert_eq!(
        AES::new(b"0123456789123456").encrypt(&AES::new(b"0123456789123456").decrypt(b"0987654321123456")),
        b"0987654321123456"
    );
}

#[test]
fn fips_197_vectors() {
    let plain: Vec<u8> = (0..16).map(|i| i * 0x11).collect();
    let key: Vec<u8> = (0..32).collect();
    let cases: [(usize, [u8; 16]); 3] = [
        (16, [0x69, 0xc4, 0xe0, 0xd8, 0x6a, 0x7b, 0x04, 0x30, 0xd8, 0xcd, 0xb7, 0x80, 0x70, 0xb4, 0xc5, 0x5a]),
        (24, [0xdd, 0xa9, 0x7c, 0xa4, 0x86, 0x4c, 0xdf, 0xe0, 0x6e, 0xaf, 0x70, 0xa0, 0xec, 0x0d, 0x71, 0x91]),
        (32, [0x8e, 0xa2, 0xb7, 0xca, 0x51, 0x67, 0x45, 0xbf, 0xea, 0xfc, 0x49, 0x90, 0x4b, 0x49, 0x60, 0x89]),
    ];
    for (len, expected) in cases {
        let cipher = AES::new(&key[..len]);
        assert_eq!(cipher.encrypt(&plain), expected);
        assert_eq!(cipher.decrypt(&expected), plain);
    }
}

#[test]
fn core_round_trip_on_many_blocks() {
    let mut round_keys: [State; 13] = [[[0; 4]; 4]; 13];
    key_expansion(&[0x5a; 24], &mut round_keys);
    for seed in 0..64u8 {
        let block: Vec<u8> = (0..16).map(|i| seed.wrapping_mul(31).wrapping_add(i * 7)).collect();
        let c = encrypt_core(&round_keys, &block);
        assert_eq!(decrypt_core(&round_keys, &c), block);
        assert_eq!(encrypt_core(&round_keys, &decrypt_core(&round_keys, &block)), block);
    }
}

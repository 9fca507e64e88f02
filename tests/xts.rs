use aes::cipher::{CtsBlockDecrypt, CtsBlockEncrypt};
use aes::mode::Xts;

fn bytes(seed: u32, n: usize) -> Vec<u8> {
    let mut x = seed;
    (0..n)
        .map(|_| {
            x = x.wrapping_mul(1_103_515_245).wrapping_add(12_345);
            (x >> 16) as u8
        })
        .collect()
}

#[test]
fn xts_round_trip_every_length() {
    let key1 = bytes(11, 16);
    let key2 = bytes(12, 16);
    let i = bytes(13, 16);
    for n in 16..65usize {
        let plaintext = bytes(n as u32, n);
        let ciphertext = Xts::new(&key1, &key2, &i).encrypt(&plaintext);
        assert_eq!(ciphertext.len(), plaintext.len());
        assert_eq!(Xts::new(&key1, &key2, &i).decrypt(&ciphertext), plaintext);
    }
}

#[test]
fn xts_ieee_vector_two() {
    // IEEE 1619-2007, vector 2
    let key1 = [0x11; 16];
    let key2 = [0x22; 16];
    let mut i = [0u8; 16];
    i[0] = 0x33;
    i[1] = 0x33;
    i[2] = 0x33;
    i[3] = 0x33;
    i[4] = 0x33;
    let plaintext = [0x44; 32];
    let expected = [
        0xc4, 0x54, 0x18, 0x5e, 0x6a, 0x16, 0x93, 0x6e, 0x39, 0x33, 0x40, 0x38, 0xac, 0xef, 0x83,
        0x8b, 0xfb, 0x18, 0x6f, 0xff, 0x74, 0x80, 0xad, 0xc4, 0x28, 0x93, 0x82, 0xec, 0xd6, 0xd3,
        0x94, 0xf0,
    ];
    assert_eq!(Xts::new(&key1, &key2, &i).encrypt(&plaintext), expected);
}

use aes::cipher::{BlockDecrypt, BlockEncrypt};
use aes::mode::Xex;
use aes::utils::padding::{NoPadding, Pkcs7Padding};
use aes::AES;

fn bytes(seed: u32, n: usize) -> Vec<u8> {
    let mut x = seed;
    (0..n)
        .map(|_| {
            x = x.wrapping_mul(1_103_515_245).wrapping_add(12_345);
            (x >> 16) as u8
        })
        .collect()
}

#[test]
fn test_xex_decrypt() {
    let key1 = bytes(1, 16);
    let key2 = bytes(2, 16);
    let i = bytes(3, 16);
    let plaintext = bytes(4, 37);

    assert_eq!(
        Xex::new(&key1, &key2, &i)
            .decrypt::<Pkcs7Padding>(&Xex::new(&key1, &key2, &i).encrypt::<Pkcs7Padding>(&plaintext)),
        Ok(plaintext)
    );
}

#[test]
fn test_xex_next_tweak() {
    assert_eq!(Xex::<AES>::next_tweak(&[0; 16]), [0; 16]);
    assert_eq!(
        Xex::<AES>::next_tweak(&[[1, 2, 3, 4]; 4].concat()),
        [[2, 4, 6, 8]; 4].concat()
    );
}

#[test]
fn xex_next_tweak_folds_the_top_bit() {
    let mut t = [0u8; 16];
    t[15] = 0x80;
    let mut expected = vec![0u8; 16];
    expected[0] = 0x87;
    assert_eq!(Xex::<AES>::next_tweak(&t), expected);
    let mut t = [0u8; 16];
    t[0] = 0x80;
    let mut expected = vec![0u8; 16];
    expected[1] = 0x01;
    assert_eq!(Xex::<AES>::next_tweak(&t), expected);
}

#[test]
fn xex_round_trip_without_padding() {
    let key1 = bytes(5, 32);
    let key2 = bytes(6, 16);
    let i = bytes(7, 16);
    let plaintext = bytes(8, 64);
    let ciphertext = Xex::new(&key1, &key2, &i).encrypt::<NoPadding>(&plaintext);
    assert_eq!(ciphertext.len(), 64);
    assert_ne!(ciphertext, plaintext);
    assert_eq!(
        Xex::new(&key1, &key2, &i).decrypt::<NoPadding>(&ciphertext),
        Ok(plaintext)
    );
}

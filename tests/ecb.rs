use aes::cipher::{BlockDecrypt, BlockEncrypt, DecryptFail};
use aes::mode::Ecb;
use aes::utils::padding::{PaddingError, Pkcs7Padding};

#[test]
fn ecb_round_trip_every_length() {
    let key = [0x2b; 16];
    for n in 0..50usize {
        let plaintext: Vec<u8> = (0..n as u8).collect();
        let ciphertext = Ecb::new(&key).encrypt::<Pkcs7Padding>(&plaintext);
        assert_eq!(ciphertext.len(), (n / 16 + 1) * 16);
        assert_eq!(Ecb::new(&key).decrypt::<Pkcs7Padding>(&ciphertext), Ok(plaintext));
    }
}

#[test]
fn ecb_equal_blocks_encrypt_equally() {
    let key = [0x11; 16];
    let ciphertext = Ecb::new(&key).encrypt::<Pkcs7Padding>(&[0x42; 32]);
    assert_eq!(ciphertext[..16], ciphertext[16..32]);
}

#[test]
fn ecb_bad_padding_is_reported() {
    let key = [0x11; 16];
    let ciphertext = Ecb::new(&key).encrypt::<aes::utils::padding::NoPadding>(&[[5u8; 15].as_slice(), &[0x20]].concat());
    assert_eq!(
        Ecb::new(&key).decrypt::<Pkcs7Padding>(&ciphertext),
        Err(DecryptFail::UnPadding(PaddingError::BadPadding))
    );
}

#[test]
fn ecb_unaligned_ciphertext_is_bad_data() {
    let key = [0x11; 16];
    assert_eq!(
        Ecb::new(&key).decrypt::<Pkcs7Padding>(&[0u8; 17]),
        Err(DecryptFail::UnPadding(PaddingError::BadData))
    );
}

use aes::cipher::{AeadStreamDecrypt, AeadStreamEncrypt, DecryptFail};
use aes::mode::Gcm;

fn hex(s: &str) -> Vec<u8> {
    (0..s.len()).step_by(2).map(|i| u8::from_str_radix(&s[i..i + 2], 16).unwrap()).collect()
}

fn bytes(seed: u32, n: usize) -> Vec<u8> {
    let mut x = seed;
    (0..n)
        .map(|_| {
            x = x.wrapping_mul(1_103_515_245).wrapping_add(12_345);
            (x >> 16) as u8
        })
        .collect()
}

#[test]
fn test_gcm_encrypt() {
    // NIST GCM test cases 1 and 2
    let key = [0u8; 16];
    let nonce = [0u8; 12];
    assert_eq!(
        Gcm::new(&key, &nonce, &[]).encrypt(&[]),
        (vec![], hex("58e2fccefa7e3061367f1d57a4e7455a"))
    );
    assert_eq!(
        Gcm::new(&key, &nonce, &[]).encrypt(&[0u8; 16]),
        (hex("0388dace60b6a392f328c2b971b2fe78"), hex("ab6e47d42cec13bdf53a67b21257bddf"))
    );
}

#[test]
fn test_gcm_decrypt() {
    let key = bytes(1, 16);
    let nonce = bytes(2, 12);
    let plaintext = bytes(3, 40);

    let (ciphertext, tag) = Gcm::new(&key, &nonce, &nonce).encrypt(&plaintext);

    assert_eq!(
        Gcm::new(&key, &nonce, &nonce).decrypt(&ciphertext[1..], &tag),
        Err(DecryptFail::Auth)
    );
    assert_eq!(
        Gcm::new(&key, &nonce, &nonce).decrypt(&ciphertext, &nonce),
        Err(DecryptFail::Auth)
    );
    assert_eq!(
        Gcm::new(&key, &nonce, &nonce).decrypt(&ciphertext, &tag),
        Ok(plaintext)
    );
}

#[test]
fn gcm_flipped_bit_is_rejected() {
    let key = bytes(4, 16);
    let nonce = bytes(5, 12);
    let aad = bytes(6, 7);
    let plaintext = bytes(7, 33);
    let (ciphertext, tag) = Gcm::new(&key, &nonce, &aad).encrypt(&plaintext);
    for i in 0..ciphertext.len() {
        let mut bad = ciphertext.clone();
        bad[i] ^= 0x01;
        assert_eq!(Gcm::new(&key, &nonce, &aad).decrypt(&bad, &tag), Err(DecryptFail::Auth));
    }
}

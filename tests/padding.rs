use aes::utils::padding::{NoPadding, Padding, PaddingError, Pkcs7Padding};

#[test]
fn test_nopadding() {
    let plaintext = b"YELLOW SUBMARINE";

    assert_eq!(NoPadding::padding(plaintext, 20), plaintext);

    assert_eq!(NoPadding::unpadding(plaintext, 20).unwrap(), plaintext);
}

#[test]
fn test_pkcs7padding() {
    let plaintext = b"YELLOW SUBMARINE";

    assert_eq!(
        Pkcs7Padding::padding(plaintext, 20),
        b"YELLOW SUBMARINE\x04\x04\x04\x04"
    );
    assert_eq!(
        Pkcs7Padding::padding(plaintext, 16),
        b"YELLOW SUBMARINE\
        \x10\x10\x10\x10\x10\x10\x10\x10\x10\x10\x10\x10\x10\x10\x10\x10"
    );

    assert_eq!(
        Pkcs7Padding::unpadding(&Pkcs7Padding::padding(plaintext, 20), 20).unwrap(),
        plaintext
    );
    assert_eq!(
        Pkcs7Padding::unpadding(&Pkcs7Padding::padding(plaintext, 20), 16),
        Err(PaddingError::BadData)
    );
    assert_eq!(
        Pkcs7Padding::unpadding(&Pkcs7Padding::padding(plaintext, 16), 20),
        Err(PaddingError::BadData)
    );
    assert_eq!(
        Pkcs7Padding::unpadding(plaintext, 16),
        Err(PaddingError::BadPadding)
    );
}

#[test]
fn pkcs7_round_trip_every_length() {
    for n in 1..40usize {
        let data: Vec<u8> = (0..n as u8).collect();
        for bs in [1usize, 8, 16, 20, 255] {
            let padded = Pkcs7Padding::padding(&data, bs);
            assert_eq!(padded.len() % bs, 0);
            assert!(padded.len() > data.len());
            assert_eq!(Pkcs7Padding::unpadding(&padded, bs).unwrap(), data);
        }
    }
}

#[test]
fn pkcs7_rejects_zero_and_oversized_pad_bytes() {
    let mut block = vec![7u8; 16];
    block[15] = 0;
    assert_eq!(Pkcs7Padding::unpadding(&block, 16), Err(PaddingError::BadPadding));
    block[15] = 17;
    assert_eq!(Pkcs7Padding::unpadding(&block, 16), Err(PaddingError::BadPadding));
    block[15] = 3;
    block[14] = 3;
    block[13] = 2;
    assert_eq!(Pkcs7Padding::unpadding(&block, 16), Err(PaddingError::BadPadding));
    assert_eq!(Pkcs7Padding::unpadding(&[], 16), Err(PaddingError::BadPadding));
}

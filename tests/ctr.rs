use aes::cipher::{StreamDecrypt, StreamEncrypt};
use aes::mode::Ctr;

fn bytes(seed: u32, n: usize) -> Vec<u8> {
    let mut x = seed;
    (0..n)
        .map(|_| {
            x = x.wrapping_mul(1_103_515_245).wrapping_add(12_345);
            (x >> 16) as u8
        })
        .collect()
}

#[test]
fn test_ctr_test() {
    let key = [1; 16];
    let ctr = [3; 16];
    let plaintext = [2; 33];

    assert_eq!(
        Ctr::new(&key, &ctr).encrypt(&plaintext),
        vec![
            0x64, 0x3e, 0x05, 0x19, 0x79, 0x78, 0xd7, 0x45, 0xa9, 0x10, 0x5f, 0xd8, 0x4c, 0xd7,
            0xe6, 0xb1, 0x5f, 0x66, 0xc6, 0x17, 0x4b, 0x25, 0xea, 0x24, 0xe6, 0xf9, 0x19, 0x09,
            0xb7, 0xdd, 0x84, 0xfb, 0x86
        ]
    );
}

#[test]
fn test_ctr_decrypt() {
    let key = bytes(1, 16);
    let ctr = bytes(2, 16);
    let plaintext = bytes(3, 41);

    assert_eq!(
        Ctr::new(&key, &ctr).decrypt(&Ctr::new(&key, &ctr).encrypt(&plaintext)),
        plaintext
    );
}

#[test]
fn ctr_state_carries_between_calls() {
    let key = [1; 16];
    let ctr = [3; 16];
    let plaintext = [2; 33];
    let mut cipher = Ctr::new(&key, &ctr);
    let first = cipher.encrypt(&plaintext);
    let second = cipher.encrypt(&plaintext);
    assert_ne!(first, second);
    let whole = Ctr::new(&key, &ctr).encrypt(&[2; 66]);
    assert_eq!([first, second].concat(), whole);
}

#[test]
fn ctr_pieces_match_one_call() {
    let key = bytes(7, 16);
    let ctr = [0xff; 16];
    let data = bytes(8, 70);
    let whole = Ctr::new(&key, &ctr).encrypt(&data);
    let mut cipher = Ctr::new(&key, &ctr);
    let mut pieces = Vec::new();
    for piece in [&data[..3], &data[3..5], &data[5..30], &data[30..31], &data[31..]] {
        pieces.extend(cipher.encrypt(piece));
    }
    assert_eq!(pieces, whole);
    assert_eq!(whole.len(), data.len());
}

#[test]
fn ctr_set_ctr_restarts_the_stream() {
    let key = [9; 16];
    let ctr = [0; 16];
    let mut cipher = Ctr::new(&key, &ctr);
    let first = cipher.encrypt(&[0; 20]);
    cipher.set_ctr(&ctr);
    assert_eq!(cipher.encrypt(&[0; 20]), first);
}

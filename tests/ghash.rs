use aes::utils::ghash::{gmult, Ghash};

#[test]
fn test_gmult() {
    assert_eq!(gmult(0, 0), 0);
    assert_eq!(
        gmult(123, 321),
        u128::from_be_bytes([65, 216, 0, 0, 0, 0, 0, 0, 0, 0, 0, 0, 0, 0, 157, 134])
    );
}

#[test]
fn gmult_by_the_unit() {
    let one = 1u128 << 127;
    let x = 0x0123_4567_89ab_cdef_fedc_ba98_7654_3210u128;
    assert_eq!(gmult(x, one), x);
    assert_eq!(gmult(one, x), x);
    assert_eq!(gmult(x, 0), 0);
}

fn hex(s: &str) -> Vec<u8> {
    (0..s.len()).step_by(2).map(|i| u8::from_str_radix(&s[i..i + 2], 16).unwrap()).collect()
}

#[test]
fn test_ghash() {
    // NIST GCM test case 2: H = E(0^128), C = E(J0 + 1)
    let key = hex("66e94bd4ef8a2c3b884cfa59ca342b2e");
    let text = hex("0388dace60b6a392f328c2b971b2fe78");
    assert_eq!(
        Ghash::new(&key, &[]).input(&text).result(),
        hex("f38cbb1ad69223dcc3457ae5b6b0f885")
    );
}

#[test]
fn ghash_pieces_match_one_input() {
    let key = hex("66e94bd4ef8a2c3b884cfa59ca342b2e");
    let aad: Vec<u8> = (0..21).collect();
    let text: Vec<u8> = (0..55).map(|b: u8| b.wrapping_mul(7)).collect();
    let whole = Ghash::new(&key, &aad).input(&text).result();
    let mut g = Ghash::new(&key, &aad);
    g.input(&text[..3]);
    g.input(&text[3..20]);
    assert_eq!(g.input(&text[20..]).result(), whole);
}

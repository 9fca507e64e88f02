use vstd::prelude::*;

use crate::state::{create_state, flat, u8x4, Ops, State};
use crate::tables::{lemma_sbox_bijective, rcon, spec_rcon, spec_rsbox, spec_sbox};
use crate::cipher::{SingleBlockDecrypt, SingleBlockEncrypt};
use crate::utils::{lemma_xor_twice, spec_xor};

verus! {

// ---------------------------------------------------------------------------
// GF(2^8) arithmetic
/// Multiplication by `x` modulo `x^8 + x^4 + x^3 + x + 1`.
pub open spec fn xtime(a: u8) -> u8 {
    if a & 0x80 == 0 {
        (a << 1) as u8
    } else {
        ((a << 1) ^ 0x1b) as u8
    }
}

/// Product in GF(2^8): the exclusive or of `x^k * a` over the bits `k` set in `b`.
#[verifier::opaque]
pub open spec fn spec_gmul(a: u8, b: u8) -> u8 {
    let a1 = xtime(a);
    let a2 = xtime(a1);
    let a3 = xtime(a2);
    let a4 = xtime(a3);
    let a5 = xtime(a4);
    let a6 = xtime(a5);
    let a7 = xtime(a6);
    (if b & 0x01 == 0 { 0u8 } else { a }) ^ (if b & 0x02 == 0 { 0u8 } else { a1 }) ^ (if b & 0x04
        == 0 {
        0u8
    } else {
        a2
    }) ^ (if b & 0x08 == 0 { 0u8 } else { a3 }) ^ (if b & 0x10 == 0 { 0u8 } else { a4 }) ^ (if b
        & 0x20 == 0 {
        0u8
    } else {
        a5
    }) ^ (if b & 0x40 == 0 { 0u8 } else { a6 }) ^ (if b & 0x80 == 0 { 0u8 } else { a7 })
}

proof fn lemma_gmul_step(a: u8, b: u8)
    by (bit_vector)
    ensures
        spec_gmul(a, b) == (if b & 1 == 0 { 0u8 } else { a }) ^ spec_gmul(xtime(a), b >> 1),
        spec_gmul(a, 0) == 0,
{
}

/// Peasant multiplication in GF(2^8), reducing by `0x1b` whenever a shift
/// overflows bit 7.
fn gmul(a: u8, b: u8) -> (r: u8)
    ensures
        r == spec_gmul(a, b),
{
    let ghost (a0, b0) = (a, b);
    let mut a = a;
    let mut b = b;
    let mut p: u8 = 0;
    let mut i: u32 = 0;
    proof {
        let g = spec_gmul(a, b);
        assert(0u8 ^ g == g) by (bit_vector);
        assert(b >> 8u32 == 0) by (bit_vector);
    }
    while i < 8
        invariant
            i <= 8,
            p ^ spec_gmul(a, b) == spec_gmul(a0, b0),
            b >> (8 - i) == 0,
        decreases 8 - i,
    {
        proof {
            lemma_gmul_step(a, b);
        }
        let ghost (p_old, a_old, b_old) = (p, a, b);
        if b & 1 != 0 {
            p = p ^ a;
        }
        let hi_bit_set = a & 0x80;
        a = a << 1;
        if hi_bit_set != 0 {
            a = a ^ 0x1b;
        }
        b = b >> 1;
        proof {
            assert(a == xtime(a_old)) by (bit_vector)
                requires
                    hi_bit_set == a_old & 0x80,
                    a == (if hi_bit_set != 0 { ((a_old << 1) as u8) ^ 0x1b } else { (a_old
                        << 1) as u8 }),
            ;
            let t = if b_old & 1 == 0 {
                0u8
            } else {
                a_old
            };
            let g = spec_gmul(a, b);
            assert(p == p_old ^ t) by (bit_vector)
                requires
                    p == (if b_old & 1 != 0 { p_old ^ a_old } else { p_old }),
                    t == (if b_old & 1 == 0 { 0u8 } else { a_old }),
            ;
            assert((p_old ^ t) ^ g == p_old ^ (t ^ g)) by (bit_vector);
            assert(b >> (8 - (i + 1)) as u32 == 0) by (bit_vector)
                requires
                    b_old >> (8 - i) as u32 == 0,
                    b == b_old >> 1,
                    i < 8,
            ;
        }
        i += 1;
    }
    proof {
        lemma_gmul_step(a, b);
        assert(b == 0) by (bit_vector)
            requires
                b >> 0u32 == 0,
        ;
        assert(p ^ 0 == p) by (bit_vector);
    }
    p
}

// ---------------------------------------------------------------------------
// Column mixing
/// One output byte of column mixing with the circulant matrix whose first
/// row is `m0, m3, m2, m1`: the output row that starts at input byte `x0`.
pub open spec fn spec_mix_row(x0: u8, x1: u8, x2: u8, x3: u8, m0: u8, m1: u8, m2: u8, m3: u8) -> u8 {
    spec_gmul(m0, x0) ^ spec_gmul(m3, x1) ^ spec_gmul(m2, x2) ^ spec_gmul(m1, x3)
}

/// Byte `i` of a block after mixing every column with the given matrix.
pub open spec fn spec_mix_entry(b: Seq<u8>, i: int, m0: u8, m1: u8, m2: u8, m3: u8) -> u8 {
    let c = i - i % 4;
    let r = i % 4;
    spec_mix_row(
        b[c + r],
        b[c + (r + 1) % 4],
        b[c + (r + 2) % 4],
        b[c + (r + 3) % 4],
        m0,
        m1,
        m2,
        m3,
    )
}

pub open spec fn spec_mix_with(b: Seq<u8>, m0: u8, m1: u8, m2: u8, m3: u8) -> Seq<u8> {
    Seq::new(16, |i: int| spec_mix_entry(b, i, m0, m1, m2, m3))
}

/// MixColumns: every column times the matrix with first row `02 03 01 01`.
pub open spec fn spec_mix_columns(b: Seq<u8>) -> Seq<u8> {
    spec_mix_with(b, 0x02, 0x01, 0x01, 0x03)
}

/// InvMixColumns: every column times the matrix with first row `0e 0b 0d 09`.
pub open spec fn spec_inv_mix_columns(b: Seq<u8>) -> Seq<u8> {
    spec_mix_with(b, 0x0e, 0x09, 0x0d, 0x0b)
}

proof fn lemma_gmul_linear(c: u8, x: u8, y: u8)
    by (bit_vector)
    ensures
        spec_gmul(c, x ^ y) == spec_gmul(c, x) ^ spec_gmul(c, y),
{
}

proof fn lemma_gmul_linear4(c: u8, a: u8, b: u8, d: u8, e: u8)
    ensures
        spec_gmul(c, a ^ b ^ d ^ e) == spec_gmul(c, a) ^ spec_gmul(c, b) ^ spec_gmul(c, d)
            ^ spec_gmul(c, e),
{
    lemma_gmul_linear(c, a, b);
    lemma_gmul_linear(c, a ^ b, d);
    lemma_gmul_linear(c, a ^ b ^ d, e);
}

/// The products that make the matrix `e` the inverse of the matrix `m`, on the byte `x`.
spec fn mix_cancels(x: u8, m0: u8, m1: u8, m2: u8, m3: u8, e0: u8, e1: u8, e2: u8, e3: u8) -> bool {
    &&& spec_gmul(e0, spec_gmul(m0, x)) ^ spec_gmul(e3, spec_gmul(m1, x)) ^ spec_gmul(
        e2,
        spec_gmul(m2, x),
    ) ^ spec_gmul(e1, spec_gmul(m3, x)) == x
    &&& spec_gmul(e0, spec_gmul(m3, x)) ^ spec_gmul(e3, spec_gmul(m0, x)) ^ spec_gmul(
        e2,
        spec_gmul(m1, x),
    ) ^ spec_gmul(e1, spec_gmul(m2, x)) == 0
    &&& spec_gmul(e0, spec_gmul(m2, x)) ^ spec_gmul(e3, spec_gmul(m3, x)) ^ spec_gmul(
        e2,
        spec_gmul(m0, x),
    ) ^ spec_gmul(e1, spec_gmul(m1, x)) == 0
    &&& spec_gmul(e0, spec_gmul(m1, x)) ^ spec_gmul(e3, spec_gmul(m2, x)) ^ spec_gmul(
        e2,
        spec_gmul(m3, x),
    ) ^ spec_gmul(e1, spec_gmul(m0, x)) == 0
}

proof fn lemma_mix_cancels_forward(x: u8)
    by (bit_vector)
    ensures
        mix_cancels(x, 0x02, 0x01, 0x01, 0x03, 0x0e, 0x09, 0x0d, 0x0b),
{
}

proof fn lemma_mix_cancels_inverse(x: u8)
    by (bit_vector)
    ensures
        mix_cancels(x, 0x0e, 0x09, 0x0d, 0x0b, 0x02, 0x01, 0x01, 0x03),
{
}

/// Row 0 of mixing with `e` after mixing with `m` gives back byte `x0`;
/// the other rows follow by rotating the column.
proof fn lemma_mix_row_inverse(
    x0: u8,
    x1: u8,
    x2: u8,
    x3: u8,
    m0: u8,
    m1: u8,
    m2: u8,
    m3: u8,
    e0: u8,
    e1: u8,
    e2: u8,
    e3: u8,
)
    requires
        mix_cancels(x0, m0, m1, m2, m3, e0, e1, e2, e3),
        mix_cancels(x1, m0, m1, m2, m3, e0, e1, e2, e3),
        mix_cancels(x2, m0, m1, m2, m3, e0, e1, e2, e3),
        mix_cancels(x3, m0, m1, m2, m3, e0, e1, e2, e3),
    ensures
        spec_mix_row(
            spec_mix_row(x0, x1, x2, x3, m0, m1, m2, m3),
            spec_mix_row(x1, x2, x3, x0, m0, m1, m2, m3),
            spec_mix_row(x2, x3, x0, x1, m0, m1, m2, m3),
            spec_mix_row(x3, x0, x1, x2, m0, m1, m2, m3),
            e0,
            e1,
            e2,
            e3,
        ) == x0,
{
    let y0 = spec_mix_row(x0, x1, x2, x3, m0, m1, m2, m3);
    let y1 = spec_mix_row(x1, x2, x3, x0, m0, m1, m2, m3);
    let y2 = spec_mix_row(x2, x3, x0, x1, m0, m1, m2, m3);
    let y3 = spec_mix_row(x3, x0, x1, x2, m0, m1, m2, m3);
    lemma_gmul_linear4(e0, spec_gmul(m0, x0), spec_gmul(m3, x1), spec_gmul(m2, x2), spec_gmul(m1, x3));
    lemma_gmul_linear4(e3, spec_gmul(m0, x1), spec_gmul(m3, x2), spec_gmul(m2, x3), spec_gmul(m1, x0));
    lemma_gmul_linear4(e2, spec_gmul(m0, x2), spec_gmul(m3, x3), spec_gmul(m2, x0), spec_gmul(m1, x1));
    lemma_gmul_linear4(e1, spec_gmul(m0, x3), spec_gmul(m3, x0), spec_gmul(m2, x1), spec_gmul(m1, x2));
    let (a00, a01, a02, a03) = (
        spec_gmul(e0, spec_gmul(m0, x0)),
        spec_gmul(e0, spec_gmul(m3, x1)),
        spec_gmul(e0, spec_gmul(m2, x2)),
        spec_gmul(e0, spec_gmul(m1, x3)),
    );
    let (a10, a11, a12, a13) = (
        spec_gmul(e3, spec_gmul(m0, x1)),
        spec_gmul(e3, spec_gmul(m3, x2)),
        spec_gmul(e3, spec_gmul(m2, x3)),
        spec_gmul(e3, spec_gmul(m1, x0)),
    );
    let (a20, a21, a22, a23) = (
        spec_gmul(e2, spec_gmul(m0, x2)),
        spec_gmul(e2, spec_gmul(m3, x3)),
        spec_gmul(e2, spec_gmul(m2, x0)),
        spec_gmul(e2, spec_gmul(m1, x1)),
    );
    let (a30, a31, a32, a33) = (
        spec_gmul(e1, spec_gmul(m0, x3)),
        spec_gmul(e1, spec_gmul(m3, x0)),
        spec_gmul(e1, spec_gmul(m2, x1)),
        spec_gmul(e1, spec_gmul(m1, x2)),
    );
    // the coefficients of x0, x1, x2 and x3 in the product
    assert(a00 ^ a13 ^ a22 ^ a31 == x0);
    assert(a01 ^ a10 ^ a23 ^ a32 == 0);
    assert(a02 ^ a11 ^ a20 ^ a33 == 0);
    assert(a03 ^ a12 ^ a21 ^ a30 == 0);
    let out = spec_gmul(e0, y0) ^ spec_gmul(e3, y1) ^ spec_gmul(e2, y2) ^ spec_gmul(e1, y3);
    assert(out == x0) by (bit_vector)
        requires
            out == (a00 ^ a01 ^ a02 ^ a03) ^ (a10 ^ a11 ^ a12 ^ a13) ^ (a20 ^ a21 ^ a22 ^ a23) ^ (
            a30 ^ a31 ^ a32 ^ a33),
            a00 ^ a13 ^ a22 ^ a31 == x0,
            a01 ^ a10 ^ a23 ^ a32 == 0,
            a02 ^ a11 ^ a20 ^ a33 == 0,
            a03 ^ a12 ^ a21 ^ a30 == 0,
    ;
}


/// One output byte of column mixing.
fn mix_row(x0: u8, x1: u8, x2: u8, x3: u8, m0: u8, m1: u8, m2: u8, m3: u8) -> (r: u8)
    ensures
        r == spec_mix_row(x0, x1, x2, x3, m0, m1, m2, m3),
{
    gmul(m0, x0) ^ gmul(m3, x1) ^ gmul(m2, x2) ^ gmul(m1, x3)
}

fn mix_column(c: &u8x4, m0: u8, m1: u8, m2: u8, m3: u8) -> (r: u8x4)
    ensures
        forall|j: int|
            0 <= j < 4 ==> #[trigger] r[j] == spec_mix_row(
                c[j],
                c[(j + 1) % 4],
                c[(j + 2) % 4],
                c[(j + 3) % 4],
                m0,
                m1,
                m2,
                m3,
            ),
{
    [
        mix_row(c[0], c[1], c[2], c[3], m0, m1, m2, m3),
        mix_row(c[1], c[2], c[3], c[0], m0, m1, m2, m3),
        mix_row(c[2], c[3], c[0], c[1], m0, m1, m2, m3),
        mix_row(c[3], c[0], c[1], c[2], m0, m1, m2, m3),
    ]
}

fn mix_columns_with(state: &State, m0: u8, m1: u8, m2: u8, m3: u8) -> (r: State)
    ensures
        flat(r) == spec_mix_with(flat(*state), m0, m1, m2, m3),
{
    let out: State = [
        mix_column(&state[0], m0, m1, m2, m3),
        mix_column(&state[1], m0, m1, m2, m3),
        mix_column(&state[2], m0, m1, m2, m3),
        mix_column(&state[3], m0, m1, m2, m3),
    ];
    assert(flat(out) =~= spec_mix_with(flat(*state), m0, m1, m2, m3));
    out
}

/// MixColumns.
pub fn mix_columns(state: &State) -> (r: State)
    ensures
        flat(r) == spec_mix_columns(flat(*state)),
{
    mix_columns_with(state, 0x02, 0x01, 0x01, 0x03)
}

/// InvMixColumns.
pub fn inv_mix_columns(state: &State) -> (r: State)
    ensures
        flat(r) == spec_inv_mix_columns(flat(*state)),
{
    mix_columns_with(state, 0x0e, 0x09, 0x0d, 0x0b)
}

// ---------------------------------------------------------------------------
// Byte substitution and row shifting
/// SubBytes: every byte through the substitution box.
pub open spec fn spec_sub_bytes(b: Seq<u8>) -> Seq<u8> {
    Seq::new(16, |i: int| spec_sbox(b[i]))
}

/// InvSubBytes: every byte through the inverse substitution box.
pub open spec fn spec_inv_sub_bytes(b: Seq<u8>) -> Seq<u8> {
    Seq::new(16, |i: int| spec_rsbox(b[i]))
}

/// ShiftRows: row `r` moves left by `r` columns.
pub open spec fn spec_shift_rows(b: Seq<u8>) -> Seq<u8> {
    Seq::new(16, |i: int| b[((i / 4 + i % 4) % 4) * 4 + i % 4])
}

/// InvShiftRows: row `r` moves right by `r` columns.
pub open spec fn spec_inv_shift_rows(b: Seq<u8>) -> Seq<u8> {
    Seq::new(16, |i: int| b[((i / 4 + 4 - i % 4) % 4) * 4 + i % 4])
}

/// XORs a round key into the state.
pub fn add_round_key(state: &State, round_key: &State) -> (r: State)
    ensures
        flat(r) == spec_xor(flat(*state), flat(*round_key)),
{
    let r = state.xor(round_key);
    assert(flat(r) =~= spec_xor(flat(*state), flat(*round_key)));
    r
}

/// SubBytes.
pub fn sub_bytes(state: &State) -> (r: State)
    ensures
        flat(r) == spec_sub_bytes(flat(*state)),
{
    let r = state.sub_sbox();
    assert(flat(r) =~= spec_sub_bytes(flat(*state)));
    r
}

/// InvSubBytes.
pub fn inv_sub_bytes(state: &State) -> (r: State)
    ensures
        flat(r) == spec_inv_sub_bytes(flat(*state)),
{
    let r = state.sub_rsbox();
    assert(flat(r) =~= spec_inv_sub_bytes(flat(*state)));
    r
}

/// ShiftRows, as a rotation of the transposed state.
pub fn shift_rows(state: &State) -> (r: State)
    ensures
        flat(r) == spec_shift_rows(flat(*state)),
{
    let r = reversal(&reversal(state).lrot());
    assert(flat(r) =~= spec_shift_rows(flat(*state)));
    r
}

/// InvShiftRows, as a rotation of the transposed state.
pub fn inv_shift_rows(state: &State) -> (r: State)
    ensures
        flat(r) == spec_inv_shift_rows(flat(*state)),
{
    let r = reversal(&reversal(state).rrot());
    assert(flat(r) =~= spec_inv_shift_rows(flat(*state)));
    r
}

/// Transposes the state: columns become rows.
pub fn reversal(input: &State) -> (r: State)
    ensures
        forall|i: int, j: int| 0 <= i < 4 && 0 <= j < 4 ==> #[trigger] r[i][j] == input[j][i],
{
    [
        [input[0][0], input[1][0], input[2][0], input[3][0]],
        [input[0][1], input[1][1], input[2][1], input[3][1]],
        [input[0][2], input[1][2], input[2][2], input[3][2]],
        [input[0][3], input[1][3], input[2][3], input[3][3]],
    ]
}

// ---------------------------------------------------------------------------
// Key schedule
/// Rotates a word left by one byte.
pub open spec fn spec_rot_word(w: Seq<u8>) -> Seq<u8> {
    Seq::new(4, |j: int| w[(j + 1) % 4])
}

/// Substitutes every byte of a word.
pub open spec fn spec_sub_word(w: Seq<u8>) -> Seq<u8> {
    Seq::new(4, |j: int| spec_sbox(w[j]))
}

/// Word `i` of the expanded key: the key's own words first, then each word
/// is the word `nk` places back XORed with the transformed previous word.
pub open spec fn spec_key_word(key: Seq<u8>, i: nat) -> Seq<u8>
    decreases i,
{
    let nk = key.len() / 4;
    if nk == 0 || i < nk {
        key.subrange(4 * i as int, 4 * i as int + 4)
    } else {
        let prev = spec_key_word(key, (i - 1) as nat);
        let t = if i % nk == 0 {
            let s = spec_sub_word(spec_rot_word(prev));
            s.update(0, s[0] ^ spec_rcon(i / nk - 1))
        } else if nk > 6 && i % nk == 4 {
            spec_sub_word(prev)
        } else {
            prev
        };
        spec_xor(spec_key_word(key, (i - nk) as nat), t)
    }
}

/// The round keys of a 16-, 24- or 32-byte key: `nk + 7` blocks of four words.
pub open spec fn spec_key_schedule(key: Seq<u8>) -> Seq<Seq<u8>> {
    Seq::new(
        (key.len() / 4 + 7) as nat,
        |j: int| Seq::new(16, |b: int| spec_key_word(key, (4 * j + b / 4) as nat)[b % 4]),
    )
}

/// The key lengths that AES takes.
pub open spec fn valid_key_len(n: nat) -> bool {
    n == 16 || n == 24 || n == 32
}

/// A schedule the block transform can run on: at least one round, every
/// round key a block.
pub open spec fn valid_schedule(ks: Seq<Seq<u8>>) -> bool {
    &&& ks.len() >= 2
    &&& forall|j: int| 0 <= j < ks.len() ==> (#[trigger] ks[j]).len() == 16
}

/// Round keys as blocks.
pub open spec fn schedule_view(round_keys: Seq<State>) -> Seq<Seq<u8>> {
    Seq::new(round_keys.len(), |j: int| flat(round_keys[j]))
}

/// Expands a key into its round keys.
pub fn key_expansion(key: &[u8], round_keys: &mut [State])
    requires
        valid_key_len(key@.len()),
        old(round_keys)@.len() >= key@.len() / 4 + 7,
    ensures
        final(round_keys)@.len() == old(round_keys)@.len(),
        schedule_view(final(round_keys)@).take((key@.len() / 4 + 7) as int) == spec_key_schedule(key@),
        forall|j: int|
            key@.len() / 4 + 7 <= j < old(round_keys)@.len() ==> #[trigger] final(round_keys)@[j]
                == old(round_keys)@[j],
{
    let key_words = key.len() / 4;
    let rounds = 10 + key_words - 4;
    let n_words = (rounds + 1) * 4;
    let ghost k = key@;
    let ghost orig = round_keys@;
    let mut j: usize = 0;
    while j < key_words
        invariant
            key@ == k,
            valid_key_len(k.len()),
            key_words == k.len() / 4,
            j <= key_words,
            round_keys@.len() == orig.len(),
            orig.len() >= key_words + 7,
            forall|x: int| key_words + 7 <= x < orig.len() ==> #[trigger] round_keys@[x] == orig[x],
            forall|w: int|
                0 <= w < j ==> (#[trigger] round_keys@[w / 4][w % 4])@ == spec_key_word(
                    k,
                    w as nat,
                ),
        decreases key_words - j,
    {
        let word: u8x4 = [key[4 * j], key[4 * j + 1], key[4 * j + 2], key[4 * j + 3]];
        let mut st = round_keys[j / 4];
        st[j % 4] = word;
        round_keys[j / 4] = st;
        assert(word@ =~= spec_key_word(k, j as nat));
        j += 1;
    }
    let mut i: usize = key_words;
    while i < n_words
        invariant
            key@ == k,
            valid_key_len(k.len()),
            key_words == k.len() / 4,
            n_words == (key_words + 7) * 4,
            key_words <= i <= n_words,
            round_keys@.len() == orig.len(),
            orig.len() >= key_words + 7,
            forall|x: int| key_words + 7 <= x < orig.len() ==> #[trigger] round_keys@[x] == orig[x],
            forall|w: int|
                0 <= w < i ==> (#[trigger] round_keys@[w / 4][w % 4])@ == spec_key_word(
                    k,
                    w as nat,
                ),
        decreases n_words - i,
    {
        let ghost prev = spec_key_word(k, (i - 1) as nat);
        let mut tmp: u8x4 = round_keys[(i - 1) / 4][(i - 1) % 4];
        assert(tmp@ == prev);
        if i % key_words == 0 {
            proof {
                vstd::arithmetic::div_mod::lemma_fundamental_div_mod(i as int, key_words as int);
                assert(1 <= i / key_words <= 10) by (nonlinear_arith)
                    requires
                        i == key_words * (i / key_words),
                        4 <= key_words <= i,
                        i < 4 * key_words + 28,
                ;
            }
            let t1 = tmp.lrot().sub_sbox();
            let c = rcon(i / key_words - 1);
            tmp = [t1[0] ^ c, t1[1], t1[2], t1[3]];
            proof {
                let s = spec_sub_word(spec_rot_word(prev));
                assert(t1@ =~= s);
                assert(tmp@ =~= s.update(0, s[0] ^ spec_rcon(i / key_words - 1)));
            }
        } else if key_words > 6 && i % key_words == 4 {
            tmp = tmp.sub_sbox();
            assert(tmp@ =~= spec_sub_word(prev));
        }
        let back = round_keys[(i - key_words) / 4][(i - key_words) % 4];
        let word = back.xor(&tmp);
        assert(word@ =~= spec_key_word(k, i as nat));
        let mut st = round_keys[i / 4];
        st[i % 4] = word;
        round_keys[i / 4] = st;
        i += 1;
    }
    assert(schedule_view(round_keys@).take((key_words + 7) as int) =~= spec_key_schedule(k)) by {
        assert forall|a: int| 0 <= a < key_words + 7 implies #[trigger] schedule_view(
            round_keys@,
        )[a] =~= spec_key_schedule(k)[a] by {
            assert forall|b: int| 0 <= b < 16 implies flat(round_keys@[a])[b] == spec_key_schedule(
                k,
            )[a][b] by {
                let w = 4 * a + b / 4;
                assert(w / 4 == a && w % 4 == b / 4);
                assert(round_keys@[w / 4][w % 4]@ == spec_key_word(k, w as nat));
            }
        }
    }
}

// ---------------------------------------------------------------------------
// Block transform
/// The state after the initial key addition (`i == 0`) and after full round `i`.
pub open spec fn spec_enc_state(ks: Seq<Seq<u8>>, b: Seq<u8>, i: nat) -> Seq<u8>
    decreases i,
{
    if i == 0 {
        spec_xor(b, ks[0])
    } else {
        spec_xor(
            spec_mix_columns(spec_shift_rows(spec_sub_bytes(spec_enc_state(ks, b, (i - 1) as nat)))),
            ks[i as int],
        )
    }
}

/// The forward cipher of one block under the round keys `ks`.
pub open spec fn spec_encrypt_block(ks: Seq<Seq<u8>>, b: Seq<u8>) -> Seq<u8> {
    let r = ks.len() - 1;
    spec_xor(spec_shift_rows(spec_sub_bytes(spec_enc_state(ks, b, (r - 1) as nat))), ks[r])
}

/// The state of the inverse cipher when it enters inverse round `i`,
/// counting down from the last round.
pub open spec fn spec_dec_state(ks: Seq<Seq<u8>>, c: Seq<u8>, i: int) -> Seq<u8>
    decreases ks.len() - i,
{
    if i >= ks.len() - 1 {
        spec_xor(c, ks[ks.len() - 1])
    } else {
        spec_inv_mix_columns(
            spec_xor(spec_inv_sub_bytes(spec_inv_shift_rows(spec_dec_state(ks, c, i + 1))), ks[i]),
        )
    }
}

/// The inverse cipher of one block under the round keys `ks`.
pub open spec fn spec_decrypt_block(ks: Seq<Seq<u8>>, c: Seq<u8>) -> Seq<u8> {
    spec_xor(spec_inv_shift_rows(spec_inv_sub_bytes(spec_dec_state(ks, c, 1))), ks[0])
}

fn state_bytes(s: &State) -> (r: Vec<u8>)
    ensures
        r@ == flat(*s),
{
    let mut out: Vec<u8> = Vec::with_capacity(16);
    let mut i: usize = 0;
    while i < 16
        invariant
            i <= 16,
            out@ =~= flat(*s).take(i as int),
        decreases 16 - i,
    {
        out.push(s[i / 4][i % 4]);
        i += 1;
    }
    assert(out@ =~= flat(*s));
    out
}

/// Encrypts one 16-byte block under a schedule of round keys.
pub fn encrypt_core(round_keys: &[State], data: &[u8]) -> (r: Vec<u8>)
    requires
        round_keys@.len() >= 2,
        data@.len() == 16,
    ensures
        r@ == spec_encrypt_block(schedule_view(round_keys@), data@),
{
    let ghost ks = schedule_view(round_keys@);
    let rounds = round_keys.len() - 1;
    let mut state = create_state(data);
    state = add_round_key(&state, &round_keys[0]);
    let mut i: usize = 1;
    while i < rounds
        invariant
            ks == schedule_view(round_keys@),
            rounds == round_keys@.len() - 1,
            1 <= i <= rounds,
            flat(state) == spec_enc_state(ks, data@, (i - 1) as nat),
        decreases rounds - i,
    {
        state = sub_bytes(&state);
        state = shift_rows(&state);
        state = mix_columns(&state);
        state = add_round_key(&state, &round_keys[i]);
        i += 1;
    }
    state = sub_bytes(&state);
    state = shift_rows(&state);
    state = add_round_key(&state, &round_keys[rounds]);
    state_bytes(&state)
}

/// Decrypts one 16-byte block under a schedule of round keys.
pub fn decrypt_core(round_keys: &[State], data: &[u8]) -> (r: Vec<u8>)
    requires
        round_keys@.len() >= 2,
        data@.len() == 16,
    ensures
        r@ == spec_decrypt_block(schedule_view(round_keys@), data@),
{
    let ghost ks = schedule_view(round_keys@);
    let rounds = round_keys.len() - 1;
    let mut state = create_state(data);
    state = add_round_key(&state, &round_keys[rounds]);
    let mut i: usize = rounds;
    while i > 1
        invariant
            ks == schedule_view(round_keys@),
            rounds == round_keys@.len() - 1,
            1 <= i <= rounds,
            flat(state) == spec_dec_state(ks, data@, i as int),
        decreases i,
    {
        i -= 1;
        state = inv_shift_rows(&state);
        state = inv_sub_bytes(&state);
        state = add_round_key(&state, &round_keys[i]);
        state = inv_mix_columns(&state);
    }
    state = inv_sub_bytes(&state);
    state = inv_shift_rows(&state);
    state = add_round_key(&state, &round_keys[0]);
    state_bytes(&state)
}

// ---------------------------------------------------------------------------
// The inverse cipher undoes the cipher
/// Index arithmetic of the row shifts and of column positions, case by case.
proof fn lemma_index_facts(i: int)
    requires
        0 <= i < 16,
    ensures
        ({
            let j = ((i / 4 + i % 4) % 4) * 4 + i % 4;
            0 <= j < 16 && ((j / 4 + 4 - j % 4) % 4) * 4 + j % 4 == i
        }),
        ({
            let k = ((i / 4 + 4 - i % 4) % 4) * 4 + i % 4;
            0 <= k < 16 && ((k / 4 + k % 4) % 4) * 4 + k % 4 == i
        }),
        forall|s: int|
            0 <= s < 4 ==> {
                let j = #[trigger] (i - i % 4 + (i % 4 + s) % 4);
                &&& 0 <= j < 16
                &&& j - j % 4 == i - i % 4
                &&& j % 4 == (i % 4 + s) % 4
            },
{
    if i == 0 {
    } else if i == 1 {
    } else if i == 2 {
    } else if i == 3 {
    } else if i == 4 {
    } else if i == 5 {
    } else if i == 6 {
    } else if i == 7 {
    } else if i == 8 {
    } else if i == 9 {
    } else if i == 10 {
    } else if i == 11 {
    } else if i == 12 {
    } else if i == 13 {
    } else if i == 14 {
    } else {
    }
}

#[verifier::rlimit(100)]
proof fn lemma_mix_inverse_at(b: Seq<u8>, i: int)
    requires
        b.len() == 16,
        0 <= i < 16,
    ensures
        spec_inv_mix_columns(spec_mix_columns(b))[i] == b[i],
        spec_mix_columns(spec_inv_mix_columns(b))[i] == b[i],
{
    lemma_index_facts(i);
    let c = i - i % 4;
    let r = i % 4;
    assert(c + r == i - i % 4 + (i % 4 + 0) % 4);
    let (x0, x1, x2, x3) = (b[c + r], b[c + (r + 1) % 4], b[c + (r + 2) % 4], b[c + (r + 3) % 4]);
    let y = spec_mix_columns(b);
    let z = spec_inv_mix_columns(b);
    assert(y[c + r] == spec_mix_row(x0, x1, x2, x3, 0x02, 0x01, 0x01, 0x03));
    assert(y[c + (r + 1) % 4] == spec_mix_row(x1, x2, x3, x0, 0x02, 0x01, 0x01, 0x03));
    assert(y[c + (r + 2) % 4] == spec_mix_row(x2, x3, x0, x1, 0x02, 0x01, 0x01, 0x03));
    assert(y[c + (r + 3) % 4] == spec_mix_row(x3, x0, x1, x2, 0x02, 0x01, 0x01, 0x03));
    assert(z[c + r] == spec_mix_row(x0, x1, x2, x3, 0x0e, 0x09, 0x0d, 0x0b));
    assert(z[c + (r + 1) % 4] == spec_mix_row(x1, x2, x3, x0, 0x0e, 0x09, 0x0d, 0x0b));
    assert(z[c + (r + 2) % 4] == spec_mix_row(x2, x3, x0, x1, 0x0e, 0x09, 0x0d, 0x0b));
    assert(z[c + (r + 3) % 4] == spec_mix_row(x3, x0, x1, x2, 0x0e, 0x09, 0x0d, 0x0b));
    lemma_mix_cancels_forward(x0);
    lemma_mix_cancels_forward(x1);
    lemma_mix_cancels_forward(x2);
    lemma_mix_cancels_forward(x3);
    lemma_mix_cancels_inverse(x0);
    lemma_mix_cancels_inverse(x1);
    lemma_mix_cancels_inverse(x2);
    lemma_mix_cancels_inverse(x3);
    lemma_mix_row_inverse(x0, x1, x2, x3, 0x02, 0x01, 0x01, 0x03, 0x0e, 0x09, 0x0d, 0x0b);
    lemma_mix_row_inverse(x0, x1, x2, x3, 0x0e, 0x09, 0x0d, 0x0b, 0x02, 0x01, 0x01, 0x03);
}

proof fn lemma_mix_inverse(b: Seq<u8>)
    requires
        b.len() == 16,
    ensures
        spec_inv_mix_columns(spec_mix_columns(b)) == b,
        spec_mix_columns(spec_inv_mix_columns(b)) == b,
{
    assert forall|i: int| 0 <= i < 16 implies #[trigger] spec_inv_mix_columns(
        spec_mix_columns(b),
    )[i] == b[i] && spec_mix_columns(spec_inv_mix_columns(b))[i] == b[i] by {
        lemma_mix_inverse_at(b, i);
    }
    assert(spec_inv_mix_columns(spec_mix_columns(b)) =~= b);
    assert(spec_mix_columns(spec_inv_mix_columns(b)) =~= b);
}

#[verifier::rlimit(50)]
proof fn lemma_sub_inverse(b: Seq<u8>)
    requires
        b.len() == 16,
    ensures
        spec_inv_sub_bytes(spec_sub_bytes(b)) == b,
        spec_sub_bytes(spec_inv_sub_bytes(b)) == b,
{
    lemma_sbox_bijective();
    assert(spec_inv_sub_bytes(spec_sub_bytes(b)) =~= b);
    assert(spec_sub_bytes(spec_inv_sub_bytes(b)) =~= b);
}

#[verifier::rlimit(100)]
proof fn lemma_shift_inverse(b: Seq<u8>)
    requires
        b.len() == 16,
    ensures
        spec_inv_shift_rows(spec_shift_rows(b)) == b,
        spec_shift_rows(spec_inv_shift_rows(b)) == b,
{
    assert forall|i: int| 0 <= i < 16 implies #[trigger] spec_inv_shift_rows(spec_shift_rows(b))[i]
        == b[i] && spec_shift_rows(spec_inv_shift_rows(b))[i] == b[i] by {
        lemma_index_facts(i);
    }
    assert(spec_inv_shift_rows(spec_shift_rows(b)) =~= b);
    assert(spec_shift_rows(spec_inv_shift_rows(b)) =~= b);
}

#[verifier::rlimit(50)]
proof fn lemma_sub_shift_commute(b: Seq<u8>)
    requires
        b.len() == 16,
    ensures
        spec_inv_sub_bytes(spec_shift_rows(b)) == spec_shift_rows(spec_inv_sub_bytes(b)),
        spec_sub_bytes(spec_inv_shift_rows(b)) == spec_inv_shift_rows(spec_sub_bytes(b)),
        spec_inv_shift_rows(spec_inv_sub_bytes(b)) == spec_inv_sub_bytes(spec_inv_shift_rows(b)),
{
    assert forall|i: int| 0 <= i < 16 implies 0 <= #[trigger] (((i / 4 + i % 4) % 4) * 4 + i % 4)
        < 16 && 0 <= ((i / 4 + 4 - i % 4) % 4) * 4 + i % 4 < 16 by {
        lemma_index_facts(i);
    }
    assert(spec_inv_sub_bytes(spec_shift_rows(b)) =~= spec_shift_rows(spec_inv_sub_bytes(b)));
    assert(spec_sub_bytes(spec_inv_shift_rows(b)) =~= spec_inv_shift_rows(spec_sub_bytes(b)));
    assert(spec_inv_shift_rows(spec_inv_sub_bytes(b)) =~= spec_inv_sub_bytes(
        spec_inv_shift_rows(b),
    ));
}

proof fn lemma_sub_shift_inverse(b: Seq<u8>)
    requires
        b.len() == 16,
    ensures
        spec_inv_sub_bytes(spec_sub_bytes(b)) == b,
        spec_sub_bytes(spec_inv_sub_bytes(b)) == b,
        spec_inv_shift_rows(spec_shift_rows(b)) == b,
        spec_shift_rows(spec_inv_shift_rows(b)) == b,
        spec_inv_sub_bytes(spec_shift_rows(b)) == spec_shift_rows(spec_inv_sub_bytes(b)),
        spec_sub_bytes(spec_inv_shift_rows(b)) == spec_inv_shift_rows(spec_sub_bytes(b)),
        spec_inv_shift_rows(spec_inv_sub_bytes(b)) == spec_inv_sub_bytes(spec_inv_shift_rows(b)),
{
    lemma_sub_inverse(b);
    lemma_shift_inverse(b);
    lemma_sub_shift_commute(b);
}

proof fn lemma_enc_state_len(ks: Seq<Seq<u8>>, b: Seq<u8>, i: nat)
    requires
        valid_schedule(ks),
        b.len() == 16,
        i < ks.len(),
    ensures
        spec_enc_state(ks, b, i).len() == 16,
    decreases i,
{
    if i > 0 {
        lemma_enc_state_len(ks, b, (i - 1) as nat);
    }
}

proof fn lemma_dec_state_len(ks: Seq<Seq<u8>>, c: Seq<u8>, i: int)
    requires
        valid_schedule(ks),
        c.len() == 16,
        0 <= i,
    ensures
        spec_dec_state(ks, c, i).len() == 16,
    decreases ks.len() - i,
{
    if i < ks.len() - 1 {
        lemma_dec_state_len(ks, c, i + 1);
    }
}

/// Walking the inverse cipher down from the last round meets the states of
/// the cipher: on entry to inverse round `i` the state is the output of
/// round `i - 1` after substitution and row shifting.
proof fn lemma_dec_meets_enc(ks: Seq<Seq<u8>>, b: Seq<u8>, i: int)
    requires
        valid_schedule(ks),
        b.len() == 16,
        1 <= i <= ks.len() - 1,
    ensures
        spec_dec_state(ks, spec_encrypt_block(ks, b), i) == spec_shift_rows(
            spec_sub_bytes(spec_enc_state(ks, b, (i - 1) as nat)),
        ),
    decreases ks.len() - i,
{
    let c = spec_encrypt_block(ks, b);
    let r = ks.len() - 1;
    lemma_enc_state_len(ks, b, (i - 1) as nat);
    let u = spec_shift_rows(spec_sub_bytes(spec_enc_state(ks, b, (i - 1) as nat)));
    if i == r {
        lemma_xor_twice(u, ks[r]);
    } else {
        lemma_dec_meets_enc(ks, b, i + 1);
        lemma_enc_state_len(ks, b, i as nat);
        let e = spec_enc_state(ks, b, i as nat);
        lemma_sub_shift_inverse(e);
        lemma_sub_shift_inverse(spec_shift_rows(e));
        lemma_sub_shift_inverse(spec_sub_bytes(e));
        // the inverse round strips row shifting and substitution, then the key
        assert(spec_inv_sub_bytes(spec_inv_shift_rows(spec_shift_rows(spec_sub_bytes(e)))) == e);
        lemma_xor_twice(spec_mix_columns(u), ks[i]);
        lemma_mix_inverse(u);
    }
}

/// Walking the cipher up from the first round meets the states of the
/// inverse cipher.
#[verifier::rlimit(50)]
proof fn lemma_enc_meets_dec(ks: Seq<Seq<u8>>, c: Seq<u8>, i: int)
    requires
        valid_schedule(ks),
        c.len() == 16,
        1 <= i <= ks.len() - 1,
    ensures
        spec_enc_state(ks, spec_decrypt_block(ks, c), (i - 1) as nat) == spec_inv_sub_bytes(
            spec_inv_shift_rows(spec_dec_state(ks, c, i)),
        ),
    decreases i,
{
    let b = spec_decrypt_block(ks, c);
    lemma_dec_state_len(ks, c, i);
    let d = spec_dec_state(ks, c, i);
    lemma_sub_shift_inverse(d);
    let v = spec_inv_sub_bytes(spec_inv_shift_rows(d));
    if i == 1 {
        lemma_xor_twice(spec_inv_shift_rows(spec_inv_sub_bytes(d)), ks[0]);
    } else {
        lemma_enc_meets_dec(ks, c, i - 1);
        lemma_dec_state_len(ks, c, i - 1);
        let d1 = spec_dec_state(ks, c, i - 1);
        lemma_sub_shift_inverse(d1);
        lemma_sub_shift_inverse(spec_inv_shift_rows(d1));
        let w = spec_xor(v, ks[i - 1]);
        assert(d1 == spec_inv_mix_columns(w));
        assert(spec_shift_rows(spec_sub_bytes(spec_enc_state(ks, b, (i - 2) as nat))) == d1);
        lemma_mix_inverse(w);
        lemma_xor_twice(v, ks[i - 1]);
    }
}

/// For every valid schedule the inverse cipher undoes the cipher, and the
/// cipher undoes the inverse cipher, on every 16-byte block.
pub proof fn lemma_block_round_trip(ks: Seq<Seq<u8>>, b: Seq<u8>)
    requires
        valid_schedule(ks),
        b.len() == 16,
    ensures
        spec_decrypt_block(ks, spec_encrypt_block(ks, b)) == b,
        spec_encrypt_block(ks, spec_decrypt_block(ks, b)) == b,
{
    let r = ks.len() - 1;
    // decrypting a ciphertext
    lemma_dec_meets_enc(ks, b, 1);
    let e0 = spec_enc_state(ks, b, 0);
    lemma_sub_shift_inverse(e0);
    lemma_sub_shift_inverse(spec_sub_bytes(e0));
    lemma_sub_shift_inverse(spec_shift_rows(e0));
    assert(spec_inv_shift_rows(spec_inv_sub_bytes(spec_shift_rows(spec_sub_bytes(e0)))) == e0);
    lemma_xor_twice(b, ks[0]);
    // encrypting a plaintext
    lemma_enc_meets_dec(ks, b, r);
    lemma_dec_state_len(ks, b, r);
    let d = spec_dec_state(ks, b, r);
    lemma_sub_shift_inverse(d);
    lemma_sub_shift_inverse(spec_inv_shift_rows(d));
    assert(spec_shift_rows(spec_sub_bytes(spec_inv_sub_bytes(spec_inv_shift_rows(d)))) == d);
    lemma_xor_twice(b, ks[r]);
}

// ---------------------------------------------------------------------------
// Single-block cipher
/// AES with a schedule of round keys expanded once from its key.
pub struct AES {
    round_keys: Vec<State>,
}

impl AES {
    /// The round keys, as blocks.
    pub closed spec fn schedule(&self) -> Seq<Seq<u8>> {
        schedule_view(self.round_keys@)
    }

    #[verifier::type_invariant]
    spec fn inv(&self) -> bool {
        let n = self.round_keys@.len();
        n == 11 || n == 13 || n == 15
    }

    /// Expands a 16-, 24- or 32-byte key.
    pub fn new(key: &[u8]) -> (r: AES)
        requires
            valid_key_len(key@.len()),
        ensures
            r.schedule() == spec_key_schedule(key@),
            valid_schedule(r.schedule()),
    {
        let rounds = 10 + (key.len() / 4) - 4;
        let mut round_keys: Vec<State> = vec![[[0u8; 4]; 4]; rounds + 1];
        key_expansion(key, round_keys.as_mut_slice());
        assert(schedule_view(round_keys@) =~= schedule_view(round_keys@).take(
            (key@.len() / 4 + 7) as int,
        ));
        AES { round_keys }
    }
}

impl SingleBlockEncrypt for AES {
    open spec fn spec_encrypt(&self, block: Seq<u8>) -> Seq<u8> {
        spec_encrypt_block(self.schedule(), block)
    }

    fn bs() -> (r: usize) {
        16
    }

    fn encrypt(&self, data: &[u8]) -> (r: Vec<u8>) {
        proof {
            use_type_invariant(self);
        }
        encrypt_core(self.round_keys.as_slice(), data)
    }
}

impl SingleBlockDecrypt for AES {
    open spec fn spec_decrypt(&self, block: Seq<u8>) -> Seq<u8> {
        spec_decrypt_block(self.schedule(), block)
    }

    fn bs() -> (r: usize) {
        16
    }

    fn decrypt(&self, data: &[u8]) -> (r: Vec<u8>) {
        proof {
            use_type_invariant(self);
        }
        decrypt_core(self.round_keys.as_slice(), data)
    }
}

} // verus!

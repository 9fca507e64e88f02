use vstd::prelude::*;
use vstd::slice::{slice_subrange, slice_to_vec};

use crate::aes::{lemma_block_round_trip, valid_schedule, spec_decrypt_block, spec_encrypt_block, spec_key_schedule, valid_key_len, AES};
use crate::cipher::{
    BlockDecrypt, BlockEncrypt, CtsBlockDecrypt, CtsBlockEncrypt, DecryptFail, SingleBlockDecrypt,
    SingleBlockEncrypt,
};
use crate::mode::ecb::{block_decrypt_result, decrypt_result, unpadded};
use crate::utils::padding::{Padding, PaddingError};
use crate::utils::{lemma_xor_twice, spec_xor, xor};

verus! {

/// The tweak shifted left by one bit, byte 0 being the least significant:
/// each byte takes the top bit of the byte before it.
pub open spec fn spec_shift_tweak(t: Seq<u8>) -> Seq<u8> {
    Seq::new(
        t.len(),
        |i: int| ((t[i] << 1u8) as u8) | (if i == 0 { 0u8 } else { (t[i - 1] >> 7u8) & 1 }),
    )
}

/// The tweak times the generator of GF(2^128), reducing by
/// `x^128 + x^7 + x^2 + x + 1`: the bit shifted out of the top folds back
/// as `0x87` into byte 0.
pub open spec fn spec_next_tweak(t: Seq<u8>) -> Seq<u8> {
    let s = spec_shift_tweak(t);
    if t.len() > 0 && (t.last() >> 7u8) & 1 != 0 {
        s.update(0, s[0] ^ 0x87)
    } else {
        s
    }
}

/// The tweak after `j` doublings.
pub open spec fn spec_tweak_after(t: Seq<u8>, j: nat) -> Seq<u8>
    decreases j,
{
    if j == 0 {
        t
    } else {
        spec_next_tweak(spec_tweak_after(t, (j - 1) as nat))
    }
}

/// One block through XEX: `E(P ^ T) ^ T`, or `D(C ^ T) ^ T` to decrypt.
pub open spec fn spec_xex_block(ks: Seq<Seq<u8>>, b: Seq<u8>, t: Seq<u8>, enc: bool) -> Seq<u8> {
    if enc {
        spec_xor(spec_encrypt_block(ks, spec_xor(b, t)), t)
    } else {
        spec_xor(spec_decrypt_block(ks, spec_xor(b, t)), t)
    }
}

/// Every whole block of `data` through XEX, block `j` under the tweak
/// doubled `j` times.
pub open spec fn spec_xex(ks: Seq<Seq<u8>>, t: Seq<u8>, data: Seq<u8>, enc: bool) -> Seq<u8>
    decreases data.len(),
{
    if data.len() < 16 {
        Seq::empty()
    } else {
        let n = data.len() - 16;
        spec_xex(ks, t, data.take(n), enc) + spec_xex_block(
            ks,
            data.subrange(n, n + 16),
            spec_tweak_after(t, (n / 16) as nat),
            enc,
        )
    }
}

proof fn lemma_tweak_after_len(t: Seq<u8>, j: nat)
    ensures
        spec_tweak_after(t, j).len() == t.len(),
    decreases j,
{
    if j > 0 {
        lemma_tweak_after_len(t, (j - 1) as nat);
    }
}

proof fn lemma_xex_len(ks: Seq<Seq<u8>>, t: Seq<u8>, data: Seq<u8>, enc: bool)
    requires
        data.len() % 16 == 0,
    ensures
        spec_xex(ks, t, data, enc).len() == data.len(),
    decreases data.len(),
{
    if data.len() >= 16 {
        lemma_xex_len(ks, t, data.take(data.len() - 16), enc);
    }
}

/// XEX decryption from the same tweak undoes XEX encryption.
pub proof fn lemma_xex_blocks_round_trip(ks: Seq<Seq<u8>>, t: Seq<u8>, data: Seq<u8>)
    requires
        valid_schedule(ks),
        t.len() == 16,
        data.len() % 16 == 0,
    ensures
        spec_xex(ks, t, spec_xex(ks, t, data, true), false) == data,
    decreases data.len(),
{
    if data.len() >= 16 {
        let n = data.len() - 16;
        let head = data.take(n);
        let last = data.subrange(n, n + 16);
        lemma_xex_blocks_round_trip(ks, t, head);
        lemma_xex_len(ks, t, head, true);
        let tw = spec_tweak_after(t, (n / 16) as nat);
        lemma_tweak_after_len(t, (n / 16) as nat);
        let x = spec_xor(last, tw);
        let e = spec_encrypt_block(ks, x);
        lemma_block_round_trip(ks, x);
        lemma_xor_twice(e, tw);
        lemma_xor_twice(last, tw);
        let c = spec_xex(ks, t, data, true);
        assert(c.take(n) =~= spec_xex(ks, t, head, true));
        assert(c.subrange(n, n + 16) =~= spec_xex_block(ks, last, tw, true));
        assert(head + last =~= data);
    } else {
        assert(data =~= Seq::<u8>::empty());
    }
}

/// XEX with any padding: decrypting from the same tweak what was encrypted
/// gives back the plaintext.
pub proof fn lemma_xex_round_trip<P: Padding>(ks: Seq<Seq<u8>>, t: Seq<u8>, data: Seq<u8>)
    requires
        valid_schedule(ks),
        t.len() == 16,
        P::spec_block_size_ok(16),
        P::spec_padding(data, 16).len() % 16 == 0,
    ensures
        unpadded::<P>(spec_xex(ks, t, spec_xex(ks, t, P::spec_padding(data, 16), true), false))
            == Ok::<Seq<u8>, DecryptFail>(data),
{
    lemma_xex_blocks_round_trip(ks, t, P::spec_padding(data, 16));
    P::lemma_round_trip(data, 16);
}

/// XTS of `data` (at least one block): whole blocks as in XEX; a last
/// partial block of `s` bytes steals the last `16 - s` bytes of the
/// ciphertext before it, and the two blocks trade places.
pub open spec fn spec_xts(ks: Seq<Seq<u8>>, t: Seq<u8>, data: Seq<u8>, enc: bool) -> Seq<u8> {
    let m = data.len() / 16;
    let s = (data.len() % 16) as int;
    let pos = (16 * m) as int;
    if s == 0 {
        spec_xex(ks, t, data, enc)
    } else if enc {
        let hc = spec_xex(ks, t, data.take(pos), true);
        let cc = hc.subrange(pos - 16, pos);
        hc.take(pos - 16) + spec_xex_block(
            ks,
            data.skip(pos) + cc.skip(s),
            spec_tweak_after(t, m),
            true,
        ) + cc.take(s)
    } else {
        let hp = spec_xex(ks, t, data.take(pos - 16), false);
        let st = spec_xex_block(ks, data.subrange(pos - 16, pos), spec_tweak_after(t, m), false);
        hp + spec_xex_block(
            ks,
            data.skip(pos) + st.skip(s),
            spec_tweak_after(t, (m - 1) as nat),
            false,
        ) + st.take(s)
    }
}

/// The tweak after XTS on `n` bytes: one doubling per block, one more for a
/// partial last block.
pub open spec fn spec_xts_tweak(t: Seq<u8>, n: nat) -> Seq<u8> {
    if n % 16 == 0 {
        spec_tweak_after(t, n / 16)
    } else {
        spec_tweak_after(t, n / 16 + 1)
    }
}

proof fn lemma_xex_block_round_trip(ks: Seq<Seq<u8>>, b: Seq<u8>, t: Seq<u8>)
    requires
        valid_schedule(ks),
        b.len() == 16,
        t.len() == 16,
    ensures
        spec_xex_block(ks, spec_xex_block(ks, b, t, true), t, false) == b,
        spec_xex_block(ks, b, t, true).len() == 16,
{
    let x = spec_xor(b, t);
    let e = spec_encrypt_block(ks, x);
    lemma_block_round_trip(ks, x);
    lemma_xor_twice(e, t);
    lemma_xor_twice(b, t);
}

proof fn lemma_xex_prefix(ks: Seq<Seq<u8>>, t: Seq<u8>, data: Seq<u8>, enc: bool)
    requires
        data.len() % 16 == 0,
        data.len() >= 16,
    ensures
        spec_xex(ks, t, data, enc).take(data.len() - 16) == spec_xex(
            ks,
            t,
            data.take(data.len() - 16),
            enc,
        ),
        spec_xex(ks, t, data, enc).subrange(data.len() - 16, data.len() as int) == spec_xex_block(
            ks,
            data.subrange(data.len() - 16, data.len() as int),
            spec_tweak_after(t, ((data.len() - 16) / 16) as nat),
            enc,
        ),
{
    let n = data.len() - 16;
    lemma_xex_len(ks, t, data.take(n), enc);
    let a = spec_xex(ks, t, data.take(n), enc);
    let b = spec_xex_block(ks, data.subrange(n, n + 16), spec_tweak_after(t, (n / 16) as nat), enc);
    assert((a + b).take(n) =~= a);
    assert((a + b).subrange(n, n + b.len()) =~= b);
    let x = spec_xor(data.subrange(n, n + 16), spec_tweak_after(t, (n / 16) as nat));
    assert(b.len() == 16);
}

/// XTS decryption from the same tweak undoes XTS encryption, for every
/// input of at least one block, and keeps the length.
pub proof fn lemma_xts_round_trip(ks: Seq<Seq<u8>>, t: Seq<u8>, data: Seq<u8>)
    requires
        valid_schedule(ks),
        t.len() == 16,
        data.len() >= 16,
    ensures
        spec_xts(ks, t, data, true).len() == data.len(),
        spec_xts(ks, t, spec_xts(ks, t, data, true), false) == data,
{
    let m = data.len() / 16;
    let s = (data.len() % 16) as int;
    let pos = (16 * m) as int;
    if s == 0 {
        lemma_xex_len(ks, t, data, true);
        lemma_xex_blocks_round_trip(ks, t, data);
    } else {
        let head = data.take(pos);
        lemma_xex_len(ks, t, head, true);
        lemma_xex_prefix(ks, t, head, true);
        let hc = spec_xex(ks, t, head, true);
        let cc = hc.subrange(pos - 16, pos);
        let p_last = data.subrange(pos - 16, pos);
        assert(head.take(pos - 16) =~= data.take(pos - 16));
        assert(head.subrange(pos - 16, pos) =~= p_last);
        lemma_tweak_after_len(t, m);
        lemma_tweak_after_len(t, (m - 1) as nat);
        assert((pos - 16) / 16 == m - 1);
        let tm = spec_tweak_after(t, m);
        let tp = spec_tweak_after(t, (m - 1) as nat);
        let block = data.skip(pos) + cc.skip(s);
        assert(block.len() == 16);
        lemma_xex_block_round_trip(ks, block, tm);
        lemma_xex_block_round_trip(ks, p_last, tp);
        let mid = spec_xex_block(ks, block, tm, true);
        let c = spec_xts(ks, t, data, true);
        let front = hc.take(pos - 16);
        assert(c == front + mid + cc.take(s));
        assert(c.len() == data.len());
        assert(c.len() / 16 == m && c.len() % 16 == s);
        assert(c.take(pos - 16) =~= front);
        assert(c.subrange(pos - 16, pos) =~= mid);
        assert(c.skip(pos) =~= cc.take(s));
        lemma_xex_blocks_round_trip(ks, t, data.take(pos - 16));
        let st = spec_xex_block(ks, mid, tm, false);
        assert(st == block);
        assert(st.skip(s) =~= cc.skip(s));
        assert(cc.take(s) + cc.skip(s) =~= cc);
        assert(st.take(s) =~= data.skip(pos));
        assert(data.take(pos - 16) + p_last + data.skip(pos) =~= data);
    }
}

/// One block through XEX encryption.
pub fn xex_encrypt<C: SingleBlockEncrypt>(cipher: &C, data: &[u8], tweak: &[u8]) -> (r: Vec<u8>)
    requires
        data@.len() == 16,
        tweak@.len() == 16,
    ensures
        r@ == spec_xor(cipher.spec_encrypt(spec_xor(data@, tweak@)), tweak@),
{
    let x = xor(data, tweak);
    let e = cipher.encrypt(x.as_slice());
    xor(e.as_slice(), tweak)
}

/// One block through XEX decryption.
pub fn xex_decrypt<C: SingleBlockDecrypt>(cipher: &C, data: &[u8], tweak: &[u8]) -> (r: Vec<u8>)
    requires
        data@.len() == 16,
        tweak@.len() == 16,
    ensures
        r@ == spec_xor(cipher.spec_decrypt(spec_xor(data@, tweak@)), tweak@),
{
    let x = xor(data, tweak);
    let d = cipher.decrypt(x.as_slice());
    xor(d.as_slice(), tweak)
}

/// XEX and XTS: blocks encrypted under a tweak that doubles from block to block.
pub struct Xex<C> {
    cipher: C,
    tweak: Vec<u8>,
}

/// XTS: XEX with ciphertext stealing for a last partial block.
pub struct Xts<C> {
    xex: Xex<C>,
}

impl Xts<AES> {
    /// The round keys of the data cipher.
    pub closed spec fn schedule(&self) -> Seq<Seq<u8>> {
        self.xex.schedule()
    }

    /// The tweak of the next block.
    pub closed spec fn tweak(&self) -> Seq<u8> {
        self.xex.tweak()
    }

    /// Data under `key1`; the first tweak is the sector value `i` encrypted
    /// under `key2`.
    pub fn new(key1: &[u8], key2: &[u8], i: &[u8]) -> (r: Self)
        requires
            valid_key_len(key1@.len()),
            valid_key_len(key2@.len()),
            i@.len() == 16,
        ensures
            r.schedule() == spec_key_schedule(key1@),
            r.tweak() == spec_encrypt_block(spec_key_schedule(key2@), i@),
    {
        Xts { xex: Xex::new(key1, key2, i) }
    }

    /// Sets the tweak of the next block.
    pub fn set_tweak(&mut self, tweak: &[u8])
        requires
            tweak@.len() == 16,
        ensures
            final(self).tweak() == tweak@,
            final(self).schedule() == old(self).schedule(),
    {
        self.xex.set_tweak(tweak);
    }
}

impl<C> Xex<C> {
    #[verifier::type_invariant]
    spec fn inv(&self) -> bool {
        self.tweak@.len() == 16
    }

    /// The tweak of the next block.
    pub closed spec fn tweak(&self) -> Seq<u8> {
        self.tweak@
    }

    /// The data cipher.
    pub closed spec fn cipher(&self) -> C {
        self.cipher
    }

    /// Sets the tweak of the next block.
    pub fn set_tweak(&mut self, tweak: &[u8])
        requires
            tweak@.len() == 16,
        ensures
            final(self).tweak() == tweak@,
            final(self).cipher() == old(self).cipher(),
    {
        self.tweak = slice_to_vec(tweak);
    }

    /// Doubles a tweak in GF(2^128).
    pub fn next_tweak(tweak: &[u8]) -> (r: Vec<u8>)
        ensures
            r@ == spec_next_tweak(tweak@),
    {
        let mut out: Vec<u8> = Vec::with_capacity(tweak.len());
        let mut x: u8 = 0;
        let mut y: u8 = 0;
        let mut i: usize = 0;
        while i < tweak.len()
            invariant
                i <= tweak@.len(),
                out@ =~= spec_shift_tweak(tweak@).take(i as int),
                x == (if i == 0 { 0u8 } else { (tweak@[i - 1] >> 7u8) & 1 }),
                y == x,
            decreases tweak@.len() - i,
        {
            let b = tweak[i];
            y = (b >> 7) & 1;
            out.push((b << 1) | x);
            x = y;
            i += 1;
        }
        assert(out@ =~= spec_shift_tweak(tweak@));
        if y != 0 {
            let first = out[0] ^ 0x87;
            out.set(0, first);
        }
        out
    }
}

impl Xex<AES> {
    /// The round keys of the data cipher.
    pub open spec fn schedule(&self) -> Seq<Seq<u8>> {
        self.cipher().schedule()
    }

    /// Data under `key1`; the first tweak is the sector value `i` encrypted
    /// under `key2`.
    pub fn new(key1: &[u8], key2: &[u8], i: &[u8]) -> (r: Self)
        requires
            valid_key_len(key1@.len()),
            valid_key_len(key2@.len()),
            i@.len() == 16,
        ensures
            r.schedule() == spec_key_schedule(key1@),
            r.tweak() == spec_encrypt_block(spec_key_schedule(key2@), i@),
    {
        let tweak = AES::new(key2).encrypt(i);
        Xex { cipher: AES::new(key1), tweak }
    }


    /// Runs whole blocks through XEX, doubling the tweak after each.
    fn xex_blocks(&mut self, data: &[u8], enc: bool) -> (r: Vec<u8>)
        requires
            data@.len() % 16 == 0,
        ensures
            r@ == spec_xex(old(self).schedule(), old(self).tweak(), data@, enc),
            final(self).tweak() == spec_tweak_after(old(self).tweak(), data@.len() / 16),
            final(self).schedule() == old(self).schedule(),
    {
        proof {
            use_type_invariant(&*self);
        }
        let ghost t0 = self.tweak@;
        let ghost ks = self.cipher.schedule();
        let mut out: Vec<u8> = Vec::new();
        let mut tweak = slice_to_vec(self.tweak.as_slice());
        let mut i: usize = 0;
        while i < data.len()
            invariant
                i <= data@.len(),
                i % 16 == 0,
                data@.len() % 16 == 0,
                t0.len() == 16,
                ks == self.cipher.schedule(),
                tweak@ == spec_tweak_after(t0, (i / 16) as nat),
                out@ == spec_xex(ks, t0, data@.take(i as int), enc),
            decreases data@.len() - i,
        {
            proof {
                lemma_tweak_after_len(t0, (i / 16) as nat);
            }
            let block = slice_subrange(data, i, i + 16);
            let mut b = if enc {
                xex_encrypt(&self.cipher, block, tweak.as_slice())
            } else {
                xex_decrypt(&self.cipher, block, tweak.as_slice())
            };
            tweak = Self::next_tweak(tweak.as_slice());
            proof {
                let next = data@.take(i + 16);
                assert(next.take(i as int) =~= data@.take(i as int));
                assert(next.subrange(i as int, i + 16) =~= block@);
                assert((i + 16) / 16 == i / 16 + 1);
            }
            out.append(&mut b);
            i += 16;
        }
        assert(data@.take(data@.len() as int) =~= data@);
        proof {
            lemma_tweak_after_len(t0, (i / 16) as nat);
        }
        self.tweak = tweak;
        out
    }
}

impl BlockEncrypt for Xex<AES> {
    fn bs(&self) -> (r: usize) {
        16
    }

    fn encrypt<P: Padding>(&mut self, data: &[u8]) -> (r: Vec<u8>)
        ensures
            r@ == spec_xex(old(self).schedule(), old(self).tweak(), P::spec_padding(data@, 16), true),
            final(self).tweak() == spec_tweak_after(
                old(self).tweak(),
                P::spec_padding(data@, 16).len() / 16,
            ),
            final(self).schedule() == old(self).schedule(),
    {
        let padded = P::padding(data, 16);
        self.xex_blocks(padded.as_slice(), true)
    }
}

impl BlockDecrypt for Xex<AES> {
    fn bs(&self) -> (r: usize) {
        16
    }

    fn decrypt<P: Padding>(&mut self, data: &[u8]) -> (r: Result<Vec<u8>, DecryptFail>)
        ensures
            decrypt_result(r) == block_decrypt_result::<P>(
                data@.len(),
                spec_xex(old(self).schedule(), old(self).tweak(), data@, false),
            ),
            data@.len() % 16 == 0 ==> final(self).tweak() == spec_tweak_after(
                old(self).tweak(),
                data@.len() / 16,
            ),
            data@.len() % 16 != 0 ==> final(self).tweak() == old(self).tweak(),
            final(self).schedule() == old(self).schedule(),
    {
        if data.len() % 16 != 0 {
            return Err(DecryptFail::UnPadding(PaddingError::BadData));
        }
        let out = self.xex_blocks(data, false);
        match P::unpadding(out.as_slice(), 16) {
            Ok(v) => Ok(v),
            Err(e) => Err(DecryptFail::from(e)),
        }
    }
}

impl CtsBlockEncrypt for Xts<AES> {
    fn encrypt(&mut self, data: &[u8]) -> (r: Vec<u8>)
        ensures
            r@ == spec_xts(old(self).schedule(), old(self).tweak(), data@, true),
            r@.len() == data@.len(),
            final(self).tweak() == spec_xts_tweak(old(self).tweak(), data@.len()),
            final(self).schedule() == old(self).schedule(),
    {
        proof {
            use_type_invariant(&self.xex);
        }
        let ghost ks = self.xex.cipher.schedule();
        let ghost t0 = self.xex.tweak@;
        let pos = data.len() / 16 * 16;
        let head = slice_subrange(data, 0, pos);
        let head_ct = self.xex.xex_blocks(head, true);
        proof {
            lemma_xex_len(ks, t0, head@, true);
            use_type_invariant(&self.xex);
        }
        if pos == data.len() {
            assert(head@ =~= data@);
            return head_ct;
        }
        let s = data.len() - pos;
        let split = pos - 16;
        let tail = slice_subrange(head_ct.as_slice(), split, pos);
        let stealer = slice_subrange(data, pos, data.len());
        let mut block = slice_to_vec(stealer);
        let mut borrowed = slice_to_vec(slice_subrange(tail, s, 16));
        block.append(&mut borrowed);
        let tweak = slice_to_vec(self.xex.tweak.as_slice());
        let next = Xex::<AES>::next_tweak(tweak.as_slice());
        self.xex.set_tweak(next.as_slice());
        let mut mid = xex_encrypt(&self.xex.cipher, block.as_slice(), tweak.as_slice());
        let mut out = slice_to_vec(slice_subrange(head_ct.as_slice(), 0, split));
        let mut stolen = slice_to_vec(slice_subrange(tail, 0, s));
        proof {
            let hc = head_ct@;
            assert(data@.take(pos as int) =~= head@);
            assert(data@.skip(pos as int) =~= stealer@);
            assert(block@ =~= data@.skip(pos as int) + hc.subrange(split as int, pos as int).skip(
                s as int,
            ));
        }
        out.append(&mut mid);
        out.append(&mut stolen);
        assert(out@ =~= spec_xts(ks, t0, data@, true));
        out
    }
}

impl CtsBlockDecrypt for Xts<AES> {
    fn decrypt(&mut self, data: &[u8]) -> (r: Vec<u8>)
        ensures
            r@ == spec_xts(old(self).schedule(), old(self).tweak(), data@, false),
            r@.len() == data@.len(),
            final(self).tweak() == spec_xts_tweak(old(self).tweak(), data@.len()),
            final(self).schedule() == old(self).schedule(),
    {
        proof {
            use_type_invariant(&self.xex);
        }
        let ghost ks = self.xex.cipher.schedule();
        let ghost t0 = self.xex.tweak@;
        let pos = data.len() / 16 * 16;
        if pos == data.len() {
            proof {
                lemma_xex_len(ks, t0, data@, false);
            }
            return self.xex.xex_blocks(data, false);
        }
        let s = data.len() - pos;
        let head = slice_subrange(data, 0, pos - 16);
        let head_pt = self.xex.xex_blocks(head, false);
        proof {
            lemma_xex_len(ks, t0, head@, false);
            use_type_invariant(&self.xex);
        }
        let stealer = slice_subrange(data, pos - 16, pos);
        let tail = slice_subrange(data, pos, data.len());
        let tweak_tail = slice_to_vec(self.xex.tweak.as_slice());
        let tweak_stealer = Xex::<AES>::next_tweak(tweak_tail.as_slice());
        let after = Xex::<AES>::next_tweak(tweak_stealer.as_slice());
        self.xex.set_tweak(after.as_slice());
        let st = xex_decrypt(&self.xex.cipher, stealer, tweak_stealer.as_slice());
        let mut block = slice_to_vec(tail);
        let mut rest = slice_to_vec(slice_subrange(st.as_slice(), s, 16));
        block.append(&mut rest);
        let mut mid = xex_decrypt(&self.xex.cipher, block.as_slice(), tweak_tail.as_slice());
        let mut out = head_pt;
        let mut last = slice_to_vec(slice_subrange(st.as_slice(), 0, s));
        proof {
            assert(data@.take(pos - 16) =~= head@);
            assert(data@.subrange(pos - 16, pos as int) =~= stealer@);
            assert(data@.skip(pos as int) =~= tail@);
            assert(((pos / 16) - 1) as nat == (pos - 16) / 16);
        }
        out.append(&mut mid);
        out.append(&mut last);
        assert(out@ =~= spec_xts(ks, t0, data@, false));
        out
    }
}

} // verus!

use vstd::prelude::*;
use vstd::slice::{slice_subrange, slice_to_vec};

use crate::aes::{lemma_block_round_trip, valid_schedule, spec_decrypt_block, spec_encrypt_block, spec_key_schedule, valid_key_len, AES};
use crate::cipher::{BlockDecrypt, BlockEncrypt, DecryptFail, SingleBlockDecrypt, SingleBlockEncrypt};
use crate::mode::ecb::{block_decrypt_result, decrypt_result, unpadded};
use crate::utils::padding::{Padding, PaddingError};
use crate::utils::{lemma_xor_twice, spec_xor, xor};

verus! {

/// CBC encryption of the whole blocks of `data` from the chaining value `iv`:
/// each block is XORed with the previous ciphertext block, then encrypted.
pub open spec fn spec_cbc_encrypt(ks: Seq<Seq<u8>>, iv: Seq<u8>, data: Seq<u8>) -> Seq<u8>
    decreases data.len(),
{
    if data.len() < 16 {
        Seq::empty()
    } else {
        let n = data.len() - 16;
        let prev = spec_cbc_encrypt(ks, iv, data.take(n));
        prev + spec_encrypt_block(ks, spec_xor(data.subrange(n, n + 16), spec_chain(iv, prev)))
    }
}

/// The chaining value after `out`: its last block, or `iv` when it is empty.
pub open spec fn spec_chain(iv: Seq<u8>, out: Seq<u8>) -> Seq<u8> {
    if out.len() < 16 {
        iv
    } else {
        out.subrange(out.len() - 16, out.len() as int)
    }
}

/// CBC decryption of the whole blocks of `data` from the chaining value `iv`:
/// each block is decrypted, then XORed with the previous ciphertext block.
pub open spec fn spec_cbc_decrypt(ks: Seq<Seq<u8>>, iv: Seq<u8>, data: Seq<u8>) -> Seq<u8>
    decreases data.len(),
{
    if data.len() < 16 {
        Seq::empty()
    } else {
        let n = data.len() - 16;
        spec_cbc_decrypt(ks, iv, data.take(n)) + spec_xor(
            spec_decrypt_block(ks, data.subrange(n, n + 16)),
            spec_chain(iv, data.take(n)),
        )
    }
}

proof fn lemma_cbc_len(ks: Seq<Seq<u8>>, iv: Seq<u8>, data: Seq<u8>)
    requires
        data.len() % 16 == 0,
    ensures
        spec_cbc_encrypt(ks, iv, data).len() == data.len(),
    decreases data.len(),
{
    if data.len() >= 16 {
        lemma_cbc_len(ks, iv, data.take(data.len() - 16));
    }
}

/// CBC decryption from the same chaining value undoes CBC encryption.
pub proof fn lemma_cbc_blocks_round_trip(ks: Seq<Seq<u8>>, iv: Seq<u8>, data: Seq<u8>)
    requires
        valid_schedule(ks),
        iv.len() == 16,
        data.len() % 16 == 0,
    ensures
        spec_cbc_decrypt(ks, iv, spec_cbc_encrypt(ks, iv, data)) == data,
    decreases data.len(),
{
    if data.len() >= 16 {
        let n = data.len() - 16;
        let head = data.take(n);
        let last = data.subrange(n, n + 16);
        lemma_cbc_blocks_round_trip(ks, iv, head);
        lemma_cbc_len(ks, iv, head);
        let prev = spec_cbc_encrypt(ks, iv, head);
        let ch = spec_chain(iv, prev);
        let x = spec_xor(last, ch);
        lemma_block_round_trip(ks, x);
        lemma_xor_twice(last, ch);
        let c = spec_cbc_encrypt(ks, iv, data);
        assert(c.take(n) =~= prev);
        assert(c.subrange(n, n + 16) =~= spec_encrypt_block(ks, x));
        assert(head + last =~= data);
    } else {
        assert(data =~= Seq::<u8>::empty());
    }
}

/// CBC with any padding: decrypting from the same chaining value what was
/// encrypted gives back the plaintext.
pub proof fn lemma_cbc_round_trip<P: Padding>(ks: Seq<Seq<u8>>, iv: Seq<u8>, data: Seq<u8>)
    requires
        valid_schedule(ks),
        iv.len() == 16,
        P::spec_block_size_ok(16),
        P::spec_padding(data, 16).len() % 16 == 0,
    ensures
        unpadded::<P>(spec_cbc_decrypt(ks, iv, spec_cbc_encrypt(ks, iv, P::spec_padding(data, 16))))
            == Ok::<Seq<u8>, DecryptFail>(data),
{
    lemma_cbc_blocks_round_trip(ks, iv, P::spec_padding(data, 16));
    P::lemma_round_trip(data, 16);
}

/// Cipher block chaining.
pub struct Cbc<C> {
    cipher: C,
    iv: Vec<u8>,
}

impl<C> Cbc<C> {
    #[verifier::type_invariant]
    spec fn inv(&self) -> bool {
        self.iv@.len() == 16
    }

    /// The chaining value of the next block.
    pub closed spec fn iv(&self) -> Seq<u8> {
        self.iv@
    }

    /// The block cipher.
    pub closed spec fn cipher(&self) -> C {
        self.cipher
    }

    /// Sets the chaining value of the next block.
    pub fn set_iv(&mut self, iv: &[u8])
        requires
            iv@.len() == 16,
        ensures
            final(self).iv() == iv@,
            final(self).cipher() == old(self).cipher(),
    {
        self.iv = slice_to_vec(iv);
    }
}

impl Cbc<AES> {
    /// The round keys of the block cipher.
    pub open spec fn schedule(&self) -> Seq<Seq<u8>> {
        self.cipher().schedule()
    }

    pub fn new(key: &[u8], iv: &[u8]) -> (r: Cbc<AES>)
        requires
            valid_key_len(key@.len()),
            iv@.len() == 16,
        ensures
            r.schedule() == spec_key_schedule(key@),
            r.iv() == iv@,
    {
        Cbc { cipher: AES::new(key), iv: slice_to_vec(iv) }
    }

    fn cbc_blocks(&mut self, data: &[u8], enc: bool) -> (r: Vec<u8>)
        requires
            data@.len() % 16 == 0,
        ensures
            enc ==> r@ == spec_cbc_encrypt(old(self).schedule(), old(self).iv(), data@),
            enc ==> final(self).iv() == spec_chain(old(self).iv(), r@),
            !enc ==> r@ == spec_cbc_decrypt(old(self).schedule(), old(self).iv(), data@),
            !enc ==> final(self).iv() == spec_chain(old(self).iv(), data@),
            final(self).schedule() == old(self).schedule(),
    {
        proof {
            use_type_invariant(&*self);
        }
        let ghost iv0 = self.iv@;
        let ghost ks = self.cipher.schedule();
        let mut out: Vec<u8> = Vec::new();
        let mut iv = slice_to_vec(self.iv.as_slice());
        let mut i: usize = 0;
        while i < data.len()
            invariant
                i <= data@.len(),
                i % 16 == 0,
                data@.len() % 16 == 0,
                iv0.len() == 16,
                iv@.len() == 16,
                ks == self.cipher.schedule(),
                out@.len() == i,
                enc ==> out@ == spec_cbc_encrypt(ks, iv0, data@.take(i as int)),
                enc ==> iv@ == spec_chain(iv0, out@),
                !enc ==> out@ == spec_cbc_decrypt(ks, iv0, data@.take(i as int)),
                !enc ==> iv@ == spec_chain(iv0, data@.take(i as int)),
            decreases data@.len() - i,
        {
            let block = slice_subrange(data, i, i + 16);
            let ghost next = data@.take(i + 16);
            proof {
                assert(next.take(i as int) =~= data@.take(i as int));
                assert(next.subrange(i as int, i + 16) =~= block@);
            }
            if enc {
                let x = xor(block, iv.as_slice());
                let mut text = self.cipher.encrypt(x.as_slice());
                iv = slice_to_vec(text.as_slice());
                let ghost before = out@;
                out.append(&mut text);
                assert(spec_chain(iv0, out@) =~= iv@);
            } else {
                let d = self.cipher.decrypt(block);
                let mut text = xor(d.as_slice(), iv.as_slice());
                iv = slice_to_vec(block);
                out.append(&mut text);
                assert(spec_chain(iv0, next) =~= iv@);
            }
            i += 16;
        }
        assert(data@.take(data@.len() as int) =~= data@);
        self.iv = iv;
        out
    }
}

impl BlockEncrypt for Cbc<AES> {
    fn bs(&self) -> (r: usize) {
        16
    }

    fn encrypt<P: Padding>(&mut self, data: &[u8]) -> (r: Vec<u8>)
        ensures
            r@ == spec_cbc_encrypt(old(self).schedule(), old(self).iv(), P::spec_padding(data@, 16)),
            final(self).iv() == spec_chain(old(self).iv(), r@),
            final(self).schedule() == old(self).schedule(),
    {
        let padded = P::padding(data, 16);
        self.cbc_blocks(padded.as_slice(), true)
    }
}

impl BlockDecrypt for Cbc<AES> {
    fn bs(&self) -> (r: usize) {
        16
    }

    fn decrypt<P: Padding>(&mut self, data: &[u8]) -> (r: Result<Vec<u8>, DecryptFail>)
        ensures
            decrypt_result(r) == block_decrypt_result::<P>(
                data@.len(),
                spec_cbc_decrypt(old(self).schedule(), old(self).iv(), data@),
            ),
            data@.len() % 16 == 0 ==> final(self).iv() == spec_chain(old(self).iv(), data@),
            data@.len() % 16 != 0 ==> final(self).iv() == old(self).iv(),
            final(self).schedule() == old(self).schedule(),
    {
        if data.len() % 16 != 0 {
            return Err(DecryptFail::UnPadding(PaddingError::BadData));
        }
        let out = self.cbc_blocks(data, false);
        match P::unpadding(out.as_slice(), 16) {
            Ok(v) => Ok(v),
            Err(e) => Err(DecryptFail::from(e)),
        }
    }
}

} // verus!

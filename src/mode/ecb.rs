use vstd::prelude::*;

use crate::aes::{
    lemma_block_round_trip, spec_decrypt_block, spec_encrypt_block, valid_key_len, valid_schedule,
    AES,
};
use crate::cipher::{BlockDecrypt, BlockEncrypt, DecryptFail, SingleBlockDecrypt, SingleBlockEncrypt};
use crate::utils::padding::{bytes_result, Padding, PaddingError};

verus! {

/// Every whole block of `data` through the cipher (`enc`) or its inverse.
pub open spec fn spec_ecb(ks: Seq<Seq<u8>>, data: Seq<u8>, enc: bool) -> Seq<u8>
    decreases data.len(),
{
    if data.len() < 16 {
        Seq::empty()
    } else {
        let n = data.len() - 16;
        let last = data.subrange(n, n + 16);
        spec_ecb(ks, data.take(n), enc) + if enc {
            spec_encrypt_block(ks, last)
        } else {
            spec_decrypt_block(ks, last)
        }
    }
}

/// The result of a decryption whose plaintext still carries padding `P`.
pub open spec fn unpadded<P: Padding>(plain: Seq<u8>) -> Result<Seq<u8>, DecryptFail> {
    match P::spec_unpadding(plain, 16) {
        Ok(v) => Ok(v),
        Err(e) => Err(DecryptFail::UnPadding(e)),
    }
}

/// The result of a block-mode decryption of `n` bytes whose blocks decrypt
/// to `plain`: a length that is not a whole number of blocks is `BadData`.
pub open spec fn block_decrypt_result<P: Padding>(n: nat, plain: Seq<u8>) -> Result<
    Seq<u8>,
    DecryptFail,
> {
    if n % 16 == 0 {
        unpadded::<P>(plain)
    } else {
        Err(DecryptFail::UnPadding(PaddingError::BadData))
    }
}

/// A byte result of a decryption, as sequences.
pub open spec fn decrypt_result(r: Result<Vec<u8>, DecryptFail>) -> Result<Seq<u8>, DecryptFail> {
    match r {
        Ok(v) => Ok(v@),
        Err(e) => Err(e),
    }
}

pub proof fn lemma_ecb_len(ks: Seq<Seq<u8>>, data: Seq<u8>, enc: bool)
    requires
        valid_schedule(ks),
        data.len() % 16 == 0,
    ensures
        spec_ecb(ks, data, enc).len() == data.len(),
    decreases data.len(),
{
    if data.len() >= 16 {
        lemma_ecb_len(ks, data.take(data.len() - 16), enc);
    }
}

/// Decrypting in ECB mode undoes encrypting, block by block.
pub proof fn lemma_ecb_blocks_round_trip(ks: Seq<Seq<u8>>, data: Seq<u8>)
    requires
        valid_schedule(ks),
        data.len() % 16 == 0,
    ensures
        spec_ecb(ks, spec_ecb(ks, data, true), false) == data,
    decreases data.len(),
{
    if data.len() >= 16 {
        let n = data.len() - 16;
        let head = data.take(n);
        let last = data.subrange(n, n + 16);
        lemma_ecb_blocks_round_trip(ks, head);
        lemma_ecb_len(ks, head, true);
        lemma_block_round_trip(ks, last);
        let c = spec_ecb(ks, data, true);
        assert(c.take(n) =~= spec_ecb(ks, head, true));
        assert(c.subrange(n, n + 16) =~= spec_encrypt_block(ks, last));
        assert(head + last =~= data);
    } else {
        assert(data =~= Seq::<u8>::empty());
    }
}

/// ECB with any padding: decrypting what was encrypted gives back the plaintext.
pub proof fn lemma_ecb_round_trip<P: Padding>(ks: Seq<Seq<u8>>, data: Seq<u8>)
    requires
        valid_schedule(ks),
        P::spec_block_size_ok(16),
        P::spec_padding(data, 16).len() % 16 == 0,
    ensures
        unpadded::<P>(spec_ecb(ks, spec_ecb(ks, P::spec_padding(data, 16), true), false)) == Ok::<
            Seq<u8>,
            DecryptFail,
        >(data),
{
    lemma_ecb_blocks_round_trip(ks, P::spec_padding(data, 16));
    P::lemma_round_trip(data, 16);
}

/// Runs every whole block of `data` through `cipher` or its inverse.
pub(crate) fn ecb_blocks(cipher: &AES, data: &[u8], enc: bool) -> (r: Vec<u8>)
    requires
        data@.len() % 16 == 0,
    ensures
        r@ == spec_ecb(cipher.schedule(), data@, enc),
{
    let mut out: Vec<u8> = Vec::new();
    let mut i: usize = 0;
    while i < data.len()
        invariant
            i <= data@.len(),
            i % 16 == 0,
            data@.len() % 16 == 0,
            out@ == spec_ecb(cipher.schedule(), data@.take(i as int), enc),
        decreases data@.len() - i,
    {
        let block = vstd::slice::slice_subrange(data, i, i + 16);
        let mut b = if enc {
            cipher.encrypt(block)
        } else {
            cipher.decrypt(block)
        };
        proof {
            let next = data@.take(i + 16);
            assert(next.take(i as int) =~= data@.take(i as int));
            assert(next.subrange(i as int, i + 16) =~= block@);
        }
        out.append(&mut b);
        i += 16;
    }
    assert(data@.take(data@.len() as int) =~= data@);
    out
}

/// Electronic codebook: every block on its own.
#[derive(Debug)]
pub struct Ecb<C> {
    cipher: C,
}

impl Ecb<AES> {
    /// The round keys the blocks go through.
    pub closed spec fn schedule(&self) -> Seq<Seq<u8>> {
        self.cipher.schedule()
    }

    pub fn new(key: &[u8]) -> (r: Ecb<AES>)
        requires
            valid_key_len(key@.len()),
        ensures
            r.schedule() == crate::aes::spec_key_schedule(key@),
    {
        Ecb { cipher: AES::new(key) }
    }
}

impl BlockEncrypt for Ecb<AES> {
    fn bs(&self) -> (r: usize) {
        16
    }

    fn encrypt<P: Padding>(&mut self, data: &[u8]) -> (r: Vec<u8>)
        ensures
            r@ == spec_ecb(old(self).schedule(), P::spec_padding(data@, 16), true),
            final(self).schedule() == old(self).schedule(),
    {
        let padded = P::padding(data, 16);
        ecb_blocks(&self.cipher, padded.as_slice(), true)
    }
}

impl BlockDecrypt for Ecb<AES> {
    fn bs(&self) -> (r: usize) {
        16
    }

    fn decrypt<P: Padding>(&mut self, data: &[u8]) -> (r: Result<Vec<u8>, DecryptFail>)
        ensures
            decrypt_result(r) == block_decrypt_result::<P>(
                data@.len(),
                spec_ecb(old(self).schedule(), data@, false),
            ),
            final(self).schedule() == old(self).schedule(),
    {
        if data.len() % 16 != 0 {
            return Err(DecryptFail::UnPadding(PaddingError::BadData));
        }
        let out = ecb_blocks(&self.cipher, data, false);
        match P::unpadding(out.as_slice(), 16) {
            Ok(v) => Ok(v),
            Err(e) => Err(DecryptFail::from(e)),
        }
    }
}

} // verus!

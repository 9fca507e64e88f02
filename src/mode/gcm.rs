use vstd::prelude::*;
use vstd::slice::slice_to_vec;

use crate::aes::{spec_encrypt_block, spec_key_schedule, valid_key_len, AES};
use crate::cipher::{
    AeadStreamDecrypt, AeadStreamEncrypt, DecryptFail, SingleBlockEncrypt, StreamDecrypt,
    StreamEncrypt,
};
use crate::mode::ctr::{blocks_needed, lemma_keystream_len, spec_ctr_after, spec_stream, Ctr};
use crate::utils::ghash::{be128, spec_ghash, Ghash};
use crate::utils::{eq, lemma_xor_twice, spec_xor, xor};

verus! {

/// The first counter block `J0`: the 12-byte nonce, then the 32-bit counter 1.
pub open spec fn spec_j0(nonce: Seq<u8>) -> Seq<u8> {
    nonce + seq![0u8, 0u8, 0u8, 1u8]
}

/// Sealing `p` from a CTR state (round keys `ks`, counter `c`, leftover
/// keystream `b`) and a GHASH state (subkey `h`, associated data `aad`,
/// text so far `text`): the ciphertext and the tag `end ^ GHASH`.
pub open spec fn spec_gcm_seal(
    ks: Seq<Seq<u8>>,
    c: Seq<u8>,
    b: Seq<u8>,
    h: u128,
    aad: Seq<u8>,
    text: Seq<u8>,
    end: Seq<u8>,
    p: Seq<u8>,
) -> (Seq<u8>, Seq<u8>) {
    let ct = spec_xor(p, spec_stream(ks, c, b, blocks_needed(p.len(), b.len())));
    (ct, spec_xor(end, spec_ghash(h, aad, text + ct)))
}

/// Opening `ct` under `tag` from the same states: the plaintext when the tag
/// is the one computed over `ct`, else an authentication failure.
pub open spec fn spec_gcm_open(
    ks: Seq<Seq<u8>>,
    c: Seq<u8>,
    b: Seq<u8>,
    h: u128,
    aad: Seq<u8>,
    text: Seq<u8>,
    end: Seq<u8>,
    ct: Seq<u8>,
    tag: Seq<u8>,
) -> Result<Seq<u8>, DecryptFail> {
    if tag == spec_xor(end, spec_ghash(h, aad, text + ct)) {
        Ok(spec_xor(ct, spec_stream(ks, c, b, blocks_needed(ct.len(), b.len()))))
    } else {
        Err(DecryptFail::Auth)
    }
}

/// Opening what was sealed from the same states gives back the plaintext;
/// any other tag gives an authentication failure and no plaintext.
pub proof fn lemma_gcm_round_trip(
    ks: Seq<Seq<u8>>,
    c: Seq<u8>,
    b: Seq<u8>,
    h: u128,
    aad: Seq<u8>,
    text: Seq<u8>,
    end: Seq<u8>,
    p: Seq<u8>,
    tag: Seq<u8>,
)
    requires
        c.len() == 16,
    ensures
        ({
            let (ct, t) = spec_gcm_seal(ks, c, b, h, aad, text, end, p);
            &&& spec_gcm_open(ks, c, b, h, aad, text, end, ct, t) == Ok::<Seq<u8>, DecryptFail>(p)
            &&& tag != t ==> spec_gcm_open(ks, c, b, h, aad, text, end, ct, tag) == Err::<
                Seq<u8>,
                DecryptFail,
            >(DecryptFail::Auth)
        }),
{
    let nb = blocks_needed(p.len(), b.len());
    lemma_keystream_len(ks, c, nb);
    let s = spec_stream(ks, c, b, nb);
    assert(s.len() >= p.len());
    lemma_xor_twice(p, s);
}

/// Galois/counter mode: CTR encryption authenticated by GHASH.
pub struct Gcm<C> {
    cipher: C,
    mac: Ghash,
    end_tag: [u8; 16],
}

impl<C> Gcm<C> {
    /// The hash subkey H.
    pub closed spec fn hash_key(&self) -> u128 {
        self.mac.hash_key()
    }

    /// The associated data.
    pub closed spec fn aad(&self) -> Seq<u8> {
        self.mac.aad()
    }

    /// The text authenticated so far.
    pub closed spec fn text(&self) -> Seq<u8> {
        self.mac.text()
    }

    /// The mask of the tag, `E(J0)`.
    pub closed spec fn end_tag(&self) -> Seq<u8> {
        self.end_tag@
    }
}

impl Gcm<Ctr<AES>> {
    /// The round keys of the block cipher.
    pub closed spec fn schedule(&self) -> Seq<Seq<u8>> {
        self.cipher.schedule()
    }

    /// The next counter block.
    pub closed spec fn counter(&self) -> Seq<u8> {
        self.cipher.counter()
    }

    /// Keystream left over from the last call.
    pub closed spec fn buffer(&self) -> Seq<u8> {
        self.cipher.buffer()
    }

    /// Sets up GCM for a key, a 12-byte nonce and associated data.
    pub fn new(key: &[u8], nonce: &[u8], aad: &[u8]) -> (r: Self)
        requires
            valid_key_len(key@.len()),
            nonce@.len() == 12,
        ensures
            r.schedule() == spec_key_schedule(key@),
            r.counter() == spec_ctr_after(spec_j0(nonce@), 1),
            r.buffer() == Seq::<u8>::empty(),
            r.end_tag() == spec_encrypt_block(spec_key_schedule(key@), spec_j0(nonce@)),
            r.hash_key() == be128(
                spec_encrypt_block(spec_key_schedule(key@), Seq::new(16, |i: int| 0u8)),
            ),
            r.aad() == aad@,
            r.text() == Seq::<u8>::empty(),
    {
        let mut j0 = slice_to_vec(nonce);
        j0.push(0);
        j0.push(0);
        j0.push(0);
        j0.push(1);
        assert(j0@ =~= spec_j0(nonce@));
        let mut cipher = Ctr::new(key, j0.as_slice());
        let zeros: Vec<u8> = vec![0u8; 16];
        let hash_key = AES::new(key).encrypt(zeros.as_slice());
        let end_tag = cipher.encrypt(zeros.as_slice());
        proof {
            let ks = spec_key_schedule(key@);
            let e = spec_encrypt_block(ks, j0@);
            assert(spec_ctr_after(j0@, 0) == j0@);
            assert(crate::mode::ctr::spec_keystream(ks, j0@, 0) =~= Seq::<u8>::empty());
            assert(crate::mode::ctr::spec_keystream(ks, j0@, 1) =~= e);
            assert(spec_stream(ks, j0@, Seq::<u8>::empty(), 1) =~= e);
            assert forall|i: int| 0 <= i < 16 implies #[trigger] end_tag@[i] == e[i] by {
                let x = e[i];
                assert(0u8 ^ x == x) by (bit_vector);
            }
            assert(end_tag@ =~= e);
            assert(zeros@ =~= Seq::new(16, |i: int| 0u8));
            assert(e.skip(16) =~= Seq::<u8>::empty());
        }
        let mac = Ghash::new(hash_key.as_slice(), aad);
        let t = end_tag.as_slice();
        let end: [u8; 16] = [
            t[0], t[1], t[2], t[3], t[4], t[5], t[6], t[7], t[8], t[9], t[10], t[11], t[12], t[13],
            t[14], t[15],
        ];
        assert(end@ =~= end_tag@);
        Gcm { cipher, mac, end_tag: end }
    }
}

impl AeadStreamEncrypt for Gcm<Ctr<AES>> {
    open spec fn accepts(&self, n: nat) -> bool {
        self.text().len() + n <= usize::MAX
    }

    /// Encrypts with CTR and returns the ciphertext and its tag.
    fn encrypt(&mut self, data: &[u8]) -> (r: (Vec<u8>, Vec<u8>))
        ensures
            (r.0@, r.1@) == spec_gcm_seal(
                old(self).schedule(),
                old(self).counter(),
                old(self).buffer(),
                old(self).hash_key(),
                old(self).aad(),
                old(self).text(),
                old(self).end_tag(),
                data@,
            ),
            final(self).text() == old(self).text() + r.0@,
            final(self).counter() == spec_ctr_after(
                old(self).counter(),
                blocks_needed(data@.len(), old(self).buffer().len()),
            ),
            final(self).schedule() == old(self).schedule(),
            final(self).hash_key() == old(self).hash_key(),
            final(self).aad() == old(self).aad(),
            final(self).end_tag() == old(self).end_tag(),
    {
        let out = self.cipher.encrypt(data);
        let mac = self.mac.input(out.as_slice());
        let tag = xor(vstd::array::array_as_slice(&self.end_tag), mac.result().as_slice());
        (out, tag)
    }
}

impl AeadStreamDecrypt for Gcm<Ctr<AES>> {
    open spec fn accepts(&self, n: nat) -> bool {
        self.text().len() + n <= usize::MAX
    }

    /// Checks the tag over the ciphertext, comparing every byte, and only
    /// then decrypts; on a mismatch the CTR state is left as it was.
    fn decrypt(&mut self, data: &[u8], tag: &[u8]) -> (r: Result<Vec<u8>, DecryptFail>)
        ensures
            crate::mode::ecb::decrypt_result(r) == spec_gcm_open(
                old(self).schedule(),
                old(self).counter(),
                old(self).buffer(),
                old(self).hash_key(),
                old(self).aad(),
                old(self).text(),
                old(self).end_tag(),
                data@,
                tag@,
            ),
            final(self).text() == old(self).text() + data@,
            r is Ok ==> final(self).counter() == spec_ctr_after(
                old(self).counter(),
                blocks_needed(data@.len(), old(self).buffer().len()),
            ),
            r is Err ==> final(self).counter() == old(self).counter() && final(self).buffer()
                == old(self).buffer(),
            final(self).schedule() == old(self).schedule(),
            final(self).hash_key() == old(self).hash_key(),
            final(self).aad() == old(self).aad(),
            final(self).end_tag() == old(self).end_tag(),
    {
        let mac = self.mac.input(data);
        let calc_tag = xor(vstd::array::array_as_slice(&self.end_tag), mac.result().as_slice());
        if eq(calc_tag.as_slice(), tag) {
            Ok(self.cipher.decrypt(data))
        } else {
            Err(DecryptFail::Auth)
        }
    }
}

} // verus!

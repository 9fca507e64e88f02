use vstd::prelude::*;
use vstd::slice::{slice_subrange, slice_to_vec};

use crate::aes::{spec_encrypt_block, valid_key_len, AES};
use crate::cipher::{SingleBlockEncrypt, StreamDecrypt, StreamEncrypt};
use crate::utils::{spec_xor, xor};

verus! {

/// Adds `amount` to a big-endian counter; the carry runs from the last byte
/// towards the first and is lost past the first.
pub open spec fn spec_add_ctr(ctr: Seq<u8>, amount: u8) -> Seq<u8>
    decreases ctr.len(),
{
    if ctr.len() == 0 {
        ctr
    } else {
        let b = ctr.last();
        let nb = b.wrapping_add(amount);
        if nb >= b {
            ctr.drop_last().push(nb)
        } else {
            spec_add_ctr(ctr.drop_last(), 1).push(nb)
        }
    }
}

/// The counter after `k` increments.
pub open spec fn spec_ctr_after(ctr: Seq<u8>, k: nat) -> Seq<u8>
    decreases k,
{
    if k == 0 {
        ctr
    } else {
        spec_add_ctr(spec_ctr_after(ctr, (k - 1) as nat), 1)
    }
}

/// `k` blocks of keystream: the encrypted counters from `ctr` on.
pub open spec fn spec_keystream(ks: Seq<Seq<u8>>, ctr: Seq<u8>, k: nat) -> Seq<u8>
    decreases k,
{
    if k == 0 {
        Seq::empty()
    } else {
        spec_keystream(ks, ctr, (k - 1) as nat) + spec_encrypt_block(
            ks,
            spec_ctr_after(ctr, (k - 1) as nat),
        )
    }
}

/// How many fresh keystream blocks a call on `n` bytes uses when `buffered`
/// bytes of keystream are left over.
pub open spec fn blocks_needed(n: nat, buffered: nat) -> nat {
    if n <= buffered {
        0
    } else {
        ((n - buffered + 15) / 16) as nat
    }
}

pub proof fn lemma_add_ctr_len(ctr: Seq<u8>, amount: u8)
    ensures
        spec_add_ctr(ctr, amount).len() == ctr.len(),
    decreases ctr.len(),
{
    if ctr.len() > 0 {
        lemma_add_ctr_len(ctr.drop_last(), 1);
    }
}

proof fn lemma_ctr_after_len(ctr: Seq<u8>, k: nat)
    ensures
        spec_ctr_after(ctr, k).len() == ctr.len(),
    decreases k,
{
    if k > 0 {
        lemma_ctr_after_len(ctr, (k - 1) as nat);
        lemma_add_ctr_len(spec_ctr_after(ctr, (k - 1) as nat), 1);
    }
}

pub proof fn lemma_keystream_len(ks: Seq<Seq<u8>>, ctr: Seq<u8>, k: nat)
    requires
        ctr.len() == 16,
    ensures
        spec_keystream(ks, ctr, k).len() == 16 * k,
    decreases k,
{
    if k > 0 {
        lemma_keystream_len(ks, ctr, (k - 1) as nat);
    }
}

/// Adds `amount` to a big-endian counter.
fn add_ctr(ctr: &[u8], amount: u8) -> (r: Vec<u8>)
    ensures
        r@ == spec_add_ctr(ctr@, amount),
{
    let mut out = slice_to_vec(ctr);
    let mut amount = amount;
    let mut i: usize = ctr.len();
    let ghost orig = ctr@;
    let ghost a0 = amount;
    let mut done = false;
    assert(orig.take(i as int) =~= orig);
    assert(out@.skip(i as int) =~= Seq::<u8>::empty());
    assert(orig + Seq::<u8>::empty() =~= orig);
    while !done && i > 0
        invariant
            i <= orig.len(),
            out@.len() == orig.len(),
            out@.take(i as int) == orig.take(i as int),
            !done ==> spec_add_ctr(orig, a0) == spec_add_ctr(
                orig.take(i as int),
                amount,
            ) + out@.skip(i as int),
            done ==> out@ == spec_add_ctr(orig, a0),
        decreases i,
    {
        i -= 1;
        let b = out[i];
        let nb = b.wrapping_add(amount);
        proof {
            let t = orig.take(i + 1);
            assert(t.last() == b);
            assert(t.drop_last() =~= orig.take(i as int));
        }
        out.set(i, nb);
        if nb >= b {
            done = true;
            assert(out@ =~= orig.take(i as int).push(nb) + out@.skip(i + 1));
        } else {
            amount = 1;
            assert(out@.skip(i as int) =~= seq![nb] + out@.skip(i + 1));
        }
    }
    if !done {
        assert(orig.take(0) =~= Seq::<u8>::empty());
        assert(out@.skip(0) =~= out@);
    }
    out
}

/// The keystream a call sees: the leftover bytes, then fresh blocks.
pub open spec fn spec_stream(ks: Seq<Seq<u8>>, ctr: Seq<u8>, buffer: Seq<u8>, k: nat) -> Seq<u8> {
    buffer + spec_keystream(ks, ctr, k)
}

/// Counter mode: a stream cipher that XORs the data with encrypted counters,
/// keeping unused keystream for the next call.
pub struct Ctr<C> {
    cipher: C,
    counter: Vec<u8>,
    buffer: Vec<u8>,
}

impl<C> Ctr<C> {
    #[verifier::type_invariant]
    spec fn inv(&self) -> bool {
        self.counter@.len() == 16 && self.buffer@.len() < 16
    }

    /// The next counter block to encrypt.
    pub closed spec fn counter(&self) -> Seq<u8> {
        self.counter@
    }

    /// Keystream left over from the last call.
    pub closed spec fn buffer(&self) -> Seq<u8> {
        self.buffer@
    }

    /// The block cipher.
    pub closed spec fn cipher(&self) -> C {
        self.cipher
    }

    /// Restarts the stream at the counter `ctr`.
    pub fn set_ctr(&mut self, ctr: &[u8])
        requires
            ctr@.len() == 16,
        ensures
            final(self).counter() == ctr@,
            final(self).buffer() == Seq::<u8>::empty(),
            final(self).cipher() == old(self).cipher(),
    {
        proof {
            use_type_invariant(&*self);
        }
        self.buffer = Vec::new();
        self.counter = slice_to_vec(ctr);
    }
}

impl Ctr<AES> {
    /// The round keys of the block cipher.
    pub open spec fn schedule(&self) -> Seq<Seq<u8>> {
        self.cipher().schedule()
    }

    pub fn new(key: &[u8], counter: &[u8]) -> (r: Ctr<AES>)
        requires
            valid_key_len(key@.len()),
            counter@.len() == 16,
        ensures
            r.schedule() == crate::aes::spec_key_schedule(key@),
            r.counter() == counter@,
            r.buffer() == Seq::<u8>::empty(),
    {
        Ctr { cipher: AES::new(key), counter: slice_to_vec(counter), buffer: Vec::with_capacity(15) }
    }
}

impl StreamEncrypt for Ctr<AES> {
    fn encrypt(&mut self, data: &[u8]) -> (r: Vec<u8>)
        ensures
            ({
                let nb = blocks_needed(data@.len(), old(self).buffer().len());
                let s = spec_stream(old(self).schedule(), old(self).counter(), old(self).buffer(), nb);
                &&& r@ == spec_xor(data@, s)
                &&& final(self).buffer() == s.skip(data@.len() as int)
                &&& final(self).counter() == spec_ctr_after(old(self).counter(), nb)
                &&& final(self).schedule() == old(self).schedule()
            }),
    {
        proof {
            use_type_invariant(&*self);
        }
        let ghost ks = self.cipher.schedule();
        let ghost c0 = self.counter@;
        let ghost b0 = self.buffer@;
        let ghost nb = blocks_needed(data@.len(), b0.len());
        let bl = self.buffer.len();
        let k = if data.len() < bl {
            data.len()
        } else {
            bl
        };
        let mut out = xor(slice_subrange(data, 0, k), slice_subrange(self.buffer.as_slice(), 0, k));
        let mut buffer = slice_to_vec(slice_subrange(self.buffer.as_slice(), k, bl));
        let mut counter = slice_to_vec(self.counter.as_slice());
        let mut pos = k;
        let mut j: usize = 0;
        proof {
            assert(spec_keystream(ks, c0, 0) =~= Seq::<u8>::empty());
            assert(spec_stream(ks, c0, b0, 0) =~= b0);
            assert(out@ =~= spec_xor(data@.take(k as int), spec_stream(ks, c0, b0, 0)));
            assert(buffer@ =~= spec_stream(ks, c0, b0, 0).skip(k as int));
        }
        while pos < data.len()
            invariant
                ks == self.cipher.schedule(),
                c0.len() == 16,
                b0.len() == bl,
                bl < 16,
                nb == blocks_needed(data@.len(), bl as nat),
                k <= pos <= data@.len(),
                j <= nb,
                pos < data@.len() ==> pos == bl + 16 * j && j < nb,
                pos == data@.len() ==> j == nb,
                pos <= bl + 16 * j,
                counter@ == spec_ctr_after(c0, j as nat),
                out@ == spec_xor(data@.take(pos as int), spec_stream(ks, c0, b0, j as nat)),
                buffer@ == spec_stream(ks, c0, b0, j as nat).skip(pos as int),
            decreases data@.len() - pos,
        {
            proof {
                lemma_keystream_len(ks, c0, j as nat);
                lemma_ctr_after_len(c0, j as nat);
            }
            let end = if data.len() - pos < 16 {
                data.len()
            } else {
                pos + 16
            };
            let keystream = self.cipher.encrypt(counter.as_slice());
            counter = add_ctr(counter.as_slice(), 1);
            let chunk = slice_subrange(data, pos, end);
            let mut x = xor(chunk, slice_subrange(keystream.as_slice(), 0, end - pos));
            let ghost s1 = spec_stream(ks, c0, b0, (j + 1) as nat);
            proof {
                let s0 = spec_stream(ks, c0, b0, j as nat);
                assert(s1 =~= s0 + keystream@);
                assert(out@ + x@ =~= spec_xor(data@.take(end as int), s1));
            }
            if end - pos < 16 {
                buffer = slice_to_vec(slice_subrange(keystream.as_slice(), end - pos, 16));
                assert(buffer@ =~= s1.skip(end as int));
            } else {
                assert(buffer@ =~= s1.skip(end as int));
            }
            out.append(&mut x);
            pos = end;
            j += 1;
        }
        assert(data@.take(pos as int) =~= data@);
        proof {
            lemma_ctr_after_len(c0, j as nat);
            lemma_keystream_len(ks, c0, j as nat);
        }
        self.counter = counter;
        self.buffer = buffer;
        out
    }
}

impl StreamDecrypt for Ctr<AES> {
    /// Decrypting is encrypting: both XOR the same keystream.
    fn decrypt(&mut self, data: &[u8]) -> (r: Vec<u8>)
        ensures
            ({
                let nb = blocks_needed(data@.len(), old(self).buffer().len());
                let s = spec_stream(old(self).schedule(), old(self).counter(), old(self).buffer(), nb);
                &&& r@ == spec_xor(data@, s)
                &&& final(self).buffer() == s.skip(data@.len() as int)
                &&& final(self).counter() == spec_ctr_after(old(self).counter(), nb)
                &&& final(self).schedule() == old(self).schedule()
            }),
    {
        StreamEncrypt::encrypt(self, data)
    }
}

} // verus!

use vstd::prelude::*;
use vstd::slice::{slice_subrange, slice_to_vec};

verus! {

/// The reduction constant of GCM's field, `0xe1` in the top byte.
pub const R: u128 = 0xe100_0000_0000_0000_0000_0000_0000_0000u128;

/// `x` times the field's generator in GCM's reflected bit order: shift right
/// and fold the bit that falls off back in as `R`.
pub open spec fn spec_gf_double(x: u128) -> u128 {
    (x >> 1u32) ^ (if x & 1 == 1 {
        R
    } else {
        0u128
    })
}

/// The product in GF(2^128) with the bits of `y` from bit `i - 1` down to
/// bit 0 still to go: each set bit adds the current `x`, then `x` doubles.
pub open spec fn spec_gmult_from(out: u128, x: u128, y: u128, i: nat) -> u128
    decreases i,
{
    if i == 0 {
        out
    } else {
        let bit = (y >> ((i - 1) as u32)) & 1;
        let next = if bit == 1 {
            out ^ x
        } else {
            out
        };
        spec_gmult_from(next, spec_gf_double(x), y, (i - 1) as nat)
    }
}

/// The product of `x` and `y` in GCM's GF(2^128), most significant bit of `y` first.
#[verifier::opaque]
pub open spec fn spec_gmult(x: u128, y: u128) -> u128 {
    spec_gmult_from(0, x, y, 128)
}

/// Multiplies in GF(2^128) with GCM's reduction polynomial.
pub fn gmult(x: u128, y: u128) -> (r: u128)
    ensures
        r == spec_gmult(x, y),
{
    reveal(spec_gmult);
    let ghost x0 = x;
    let mut out: u128 = 0;
    let mut x = x;
    let mut i: u32 = 128;
    while i > 0
        invariant
            i <= 128,
            spec_gmult_from(out, x, y, i as nat) == spec_gmult(x0, y),
        decreases i,
    {
        if (y >> (i - 1)) & 1 == 1 {
            out = out ^ x;
        }
        x = (x >> 1) ^ (if x & 1 == 1 {
            R
        } else {
            0
        });
        i -= 1;
    }
    out
}

/// `s` followed by zero bytes up to a whole number of blocks.
pub open spec fn pad16(s: Seq<u8>) -> Seq<u8> {
    s + Seq::new(((16 - s.len() % 16) % 16) as nat, |i: int| 0u8)
}

/// The big-endian value of a byte string of at most 16 bytes.
pub open spec fn be128(s: Seq<u8>) -> u128
    decreases s.len(),
{
    if s.len() == 0 {
        0
    } else {
        (be128(s.drop_last()) << 8u32) | (s.last() as u128)
    }
}

/// The 16 big-endian bytes of `v`.
pub open spec fn u128_bytes(v: u128) -> Seq<u8> {
    Seq::new(16, |i: int| (v >> ((8 * (15 - i)) as u32)) as u8)
}

/// The hash accumulator after folding in every whole block of `d`:
/// `acc = (acc ^ block) * h` block by block.
pub open spec fn ghash_fold(h: u128, acc: u128, d: Seq<u8>) -> u128
    decreases d.len(),
{
    if d.len() < 16 {
        acc
    } else {
        let n = d.len() - 16;
        spec_gmult(h, ghash_fold(h, acc, d.take(n)) ^ be128(d.subrange(n, n + 16)))
    }
}

/// The final block: the bit lengths of the associated data and of the text,
/// 64 bits each, big-endian.
pub open spec fn len_block(aad_len: nat, txt_len: nat) -> u128 {
    (((aad_len * 8) as u128) << 64u32) | ((txt_len * 8) as u128)
}

/// GHASH under the subkey `h` of the associated data and the text, each
/// padded with zeros to whole blocks, then the length block.
pub open spec fn spec_ghash(h: u128, aad: Seq<u8>, text: Seq<u8>) -> Seq<u8> {
    u128_bytes(
        spec_gmult(h, ghash_fold(h, 0, pad16(aad) + pad16(text)) ^ len_block(aad.len(), text.len())),
    )
}

pub proof fn lemma_pad16_len(s: Seq<u8>)
    ensures
        pad16(s).len() % 16 == 0,
        pad16(s).len() == s.len() + (16 - s.len() % 16) % 16,
{
}

pub proof fn lemma_fold_append(h: u128, acc: u128, a: Seq<u8>, b: Seq<u8>)
    requires
        a.len() % 16 == 0,
        b.len() % 16 == 0,
    ensures
        ghash_fold(h, acc, a + b) == ghash_fold(h, ghash_fold(h, acc, a), b),
    decreases b.len(),
{
    if b.len() == 0 {
        assert(a + b =~= a);
    } else {
        let n = b.len() - 16;
        lemma_fold_append(h, acc, a, b.take(n));
        let ab = a + b;
        assert(ab.take(a.len() + n) =~= a + b.take(n));
        assert(ab.subrange(a.len() + n, a.len() + n + 16) =~= b.subrange(n, n + 16));
    }
}

/// The big-endian value of a block.
fn be_value(b: &[u8]) -> (r: u128)
    requires
        b@.len() == 16,
    ensures
        r == be128(b@),
{
    let mut v: u128 = 0;
    let mut i: usize = 0;
    assert(b@.take(0) =~= Seq::<u8>::empty());
    while i < 16
        invariant
            i <= 16,
            b@.len() == 16,
            v == be128(b@.take(i as int)),
        decreases 16 - i,
    {
        assert(b@.take(i + 1).drop_last() =~= b@.take(i as int));
        v = (v << 8) | (b[i] as u128);
        i += 1;
    }
    assert(b@.take(16) =~= b@);
    v
}

/// The 16 big-endian bytes of a value.
fn value_bytes(v: u128) -> (r: Vec<u8>)
    ensures
        r@ == u128_bytes(v),
{
    let mut out: Vec<u8> = Vec::with_capacity(16);
    let mut i: usize = 0;
    while i < 16
        invariant
            i <= 16,
            out@ =~= u128_bytes(v).take(i as int),
        decreases 16 - i,
    {
        out.push((v >> ((8 * (15 - i)) as u32)) as u8);
        i += 1;
    }
    assert(out@ =~= u128_bytes(v));
    out
}

/// GHASH, the universal hash of GCM, over associated data fixed at the
/// start and text fed in pieces.
pub struct Ghash {
    key: u128,
    state: u128,
    buffer: Vec<u8>,
    aad_len: usize,
    txt_len: usize,
    aad: Ghost<Seq<u8>>,
    text: Ghost<Seq<u8>>,
}

impl Ghash {
    /// Everything absorbed so far: the padded associated data, then the text.
    spec fn absorbed(&self) -> Seq<u8> {
        pad16(self.aad@) + self.text@
    }

    #[verifier::type_invariant]
    spec fn inv(&self) -> bool {
        let x = self.absorbed();
        let full = x.len() - x.len() % 16;
        &&& self.aad_len == self.aad@.len()
        &&& self.txt_len == self.text@.len()
        &&& self.state == ghash_fold(self.key, 0, x.take(full))
        &&& self.buffer@ == x.skip(full)
    }

    /// The hash subkey H.
    pub closed spec fn hash_key(&self) -> u128 {
        self.key
    }

    /// The associated data.
    pub closed spec fn aad(&self) -> Seq<u8> {
        self.aad@
    }

    /// The text fed in so far.
    pub closed spec fn text(&self) -> Seq<u8> {
        self.text@
    }

    /// Folds in the whole blocks of the buffer followed by `data` and keeps
    /// the rest.
    fn absorb(key: u128, state: u128, buffer: &[u8], data: &[u8]) -> (r: (u128, Vec<u8>))
        requires
            buffer@.len() < 16,
        ensures
            ({
                let c = buffer@ + data@;
                let full = c.len() - c.len() % 16;
                &&& r.0 == ghash_fold(key, state, c.take(full))
                &&& r.1@ == c.skip(full)
            }),
    {
        let mut combined = slice_to_vec(buffer);
        let mut more = slice_to_vec(data);
        combined.append(&mut more);
        let pos = combined.len() / 16 * 16;
        let mut st = state;
        let mut i: usize = 0;
        assert(combined@.take(0) =~= Seq::<u8>::empty());
        while i < pos
            invariant
                i <= pos,
                i % 16 == 0,
                pos <= combined@.len(),
                pos % 16 == 0,
                st == ghash_fold(key, state, combined@.take(i as int)),
            decreases pos - i,
        {
            let block = slice_subrange(combined.as_slice(), i, i + 16);
            let v = be_value(block);
            st = gmult(key, st ^ v);
            proof {
                let t = combined@.take(i + 16);
                assert(t.take(i as int) =~= combined@.take(i as int));
                assert(t.subrange(i as int, i + 16) =~= block@);
            }
            i += 16;
        }
        let rest = slice_to_vec(slice_subrange(combined.as_slice(), pos, combined.len()));
        (st, rest)
    }

    /// Starts GHASH under the 16-byte subkey `key`, folding in the
    /// associated data padded to whole blocks.
    pub fn new(key: &[u8], aad: &[u8]) -> (r: Ghash)
        requires
            key@.len() == 16,
        ensures
            r.hash_key() == be128(key@),
            r.aad() == aad@,
            r.text() == Seq::<u8>::empty(),
    {
        let h = be_value(key);
        let mut padded = slice_to_vec(aad);
        let zeros = (16 - aad.len() % 16) % 16;
        let mut i: usize = 0;
        while i < zeros
            invariant
                i <= zeros,
                zeros == (16 - aad@.len() % 16) % 16,
                padded@ =~= aad@ + Seq::new(i as nat, |k: int| 0u8),
            decreases zeros - i,
        {
            padded.push(0);
            i += 1;
        }
        let empty: Vec<u8> = Vec::new();
        let (state, buffer) = Self::absorb(h, 0, empty.as_slice(), padded.as_slice());
        proof {
            let x = pad16(aad@);
            assert(padded@ == x);
            assert(empty@ + padded@ =~= x);
            assert(x + Seq::<u8>::empty() =~= x);
        }
        Ghash {
            key: h,
            state,
            buffer,
            aad_len: aad.len(),
            txt_len: 0,
            aad: Ghost(aad@),
            text: Ghost(Seq::empty()),
        }
    }

    /// Feeds text in, and returns a copy of the accumulator.
    pub fn input(&mut self, data: &[u8]) -> (r: Ghash)
        requires
            old(self).text().len() + data@.len() <= usize::MAX,
        ensures
            final(self).text() == old(self).text() + data@,
            final(self).hash_key() == old(self).hash_key(),
            final(self).aad() == old(self).aad(),
            r.text() == final(self).text(),
            r.hash_key() == final(self).hash_key(),
            r.aad() == final(self).aad(),
    {
        self.update(data);
        proof {
            use_type_invariant(&*self);
        }
        Ghash {
            key: self.key,
            state: self.state,
            buffer: slice_to_vec(self.buffer.as_slice()),
            aad_len: self.aad_len,
            txt_len: self.txt_len,
            aad: Ghost(self.aad@),
            text: Ghost(self.text@),
        }
    }

    #[verifier::rlimit(50)]
    fn update(&mut self, data: &[u8])
        requires
            old(self).text().len() + data@.len() <= usize::MAX,
        ensures
            final(self).text() == old(self).text() + data@,
            final(self).hash_key() == old(self).hash_key(),
            final(self).aad() == old(self).aad(),
    {
        proof {
            use_type_invariant(&*self);
        }
        let ghost x = self.absorbed();
        let ghost full = x.len() - x.len() % 16;
        let (state, buffer) = Self::absorb(self.key, self.state, self.buffer.as_slice(), data);
        let ghost text2 = self.text@ + data@;
        proof {
            lemma_pad16_len(self.aad@);
            let x2 = pad16(self.aad@) + text2;
            let c = self.buffer@ + data@;
            let cfull = c.len() - c.len() % 16;
            assert(x2 =~= x + data@);
            assert(x2.len() == full + c.len());
            assert(x2.len() - x2.len() % 16 == full + cfull);
            assert(x2.take(full + cfull) =~= x.take(full) + c.take(cfull));
            assert(x2.skip(full + cfull) =~= c.skip(cfull));
            lemma_fold_append(self.key, 0, x.take(full), c.take(cfull));
        }
        *self = Ghash {
            key: self.key,
            state,
            buffer,
            aad_len: self.aad_len,
            txt_len: self.txt_len + data.len(),
            aad: Ghost(self.aad@),
            text: Ghost(text2),
        };
    }

    /// The hash: the last partial block padded with zeros, then the
    /// length block.
    #[verifier::rlimit(50)]
    pub fn result(&self) -> (r: Vec<u8>)
        ensures
            r@ == spec_ghash(self.hash_key(), self.aad(), self.text()),
    {
        proof {
            use_type_invariant(self);
        }
        let ghost x = self.absorbed();
        let ghost full = x.len() - x.len() % 16;
        let ghost all = pad16(self.aad@) + pad16(self.text@);
        proof {
            lemma_pad16_len(self.aad@);
            lemma_pad16_len(self.text@);
        }
        let state = if self.buffer.len() == 0 {
            proof {
                assert(all =~= x.take(full));
            }
            self.state
        } else {
            let mut last = slice_to_vec(self.buffer.as_slice());
            let mut i: usize = self.buffer.len();
            while i < 16
                invariant
                    self.buffer@.len() <= i <= 16,
                    last@ =~= self.buffer@ + Seq::new((i - self.buffer@.len()) as nat, |k: int| 0u8),
                decreases 16 - i,
            {
                last.push(0);
                i += 1;
            }
            let v = be_value(last.as_slice());
            proof {
                assert(last@ =~= pad16(self.buffer@));
                assert(all.len() == full + 16);
                assert(all.take(full) =~= x.take(full));
                assert(all.subrange(full, full + 16) =~= last@);
            }
            gmult(self.key, self.state ^ v)
        };
        let lens = (((self.aad_len as u128) * 8) << 64) | ((self.txt_len as u128) * 8);
        value_bytes(gmult(self.key, state ^ lens))
    }
}

} // verus!

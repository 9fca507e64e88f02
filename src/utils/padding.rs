use vstd::prelude::*;
use vstd::slice::{slice_subrange, slice_to_vec};

verus! {

/// Why padding could not be removed.
#[derive(Debug, PartialEq, Eq, Structural, Clone, Copy)]
pub enum PaddingError {
    /// The length is not a whole number of blocks.
    BadData,
    /// The padding bytes are malformed.
    BadPadding,
    Other,
}

/// Byte strings of a result, as sequences.
pub open spec fn bytes_result(r: Result<Vec<u8>, PaddingError>) -> Result<Seq<u8>, PaddingError> {
    match r {
        Ok(v) => Ok(v@),
        Err(e) => Err(e),
    }
}

/// A padding scheme.
pub trait Padding {
    /// The block sizes the scheme can pad to.
    spec fn spec_block_size_ok(n: nat) -> bool;

    spec fn spec_padding(data: Seq<u8>, n: nat) -> Seq<u8>;

    spec fn spec_unpadding(data: Seq<u8>, n: nat) -> Result<Seq<u8>, PaddingError>;

    /// Removing the padding gives back what was padded.
    proof fn lemma_round_trip(data: Seq<u8>, n: nat)
        requires
            0 < n,
            Self::spec_block_size_ok(n),
        ensures
            Self::spec_unpadding(Self::spec_padding(data, n), n) == Ok::<Seq<u8>, PaddingError>(
                data,
            ),
    ;

    fn padding(data: &[u8], n: usize) -> (r: Vec<u8>)
        requires
            0 < n,
            Self::spec_block_size_ok(n as nat),
        ensures
            r@ == Self::spec_padding(data@, n as nat),
    ;

    fn unpadding(data: &[u8], n: usize) -> (r: Result<Vec<u8>, PaddingError>)
        requires
            0 < n,
        ensures
            bytes_result(r) == Self::spec_unpadding(data@, n as nat),
    ;
}

/// No padding: the data goes through unchanged both ways.
pub struct NoPadding;

impl Padding for NoPadding {
    open spec fn spec_block_size_ok(n: nat) -> bool {
        true
    }

    open spec fn spec_padding(data: Seq<u8>, n: nat) -> Seq<u8> {
        data
    }

    open spec fn spec_unpadding(data: Seq<u8>, n: nat) -> Result<Seq<u8>, PaddingError> {
        Ok(data)
    }

    proof fn lemma_round_trip(data: Seq<u8>, n: nat) {
    }

    fn padding(data: &[u8], n: usize) -> (r: Vec<u8>) {
        slice_to_vec(data)
    }

    fn unpadding(data: &[u8], n: usize) -> (r: Result<Vec<u8>, PaddingError>) {
        Ok(slice_to_vec(data))
    }
}

/// PKCS#7: `p = n - len % n` bytes, each holding `p`.
pub struct Pkcs7Padding;

/// The PKCS#7 padding that `data` gets for block size `n`.
pub open spec fn pkcs7_pad(data: Seq<u8>, n: nat) -> Seq<u8> {
    let p = n - data.len() % n;
    data + Seq::new(p as nat, |i: int| p as u8)
}

/// Whether the last `p` bytes of `data` all hold `p`.
pub open spec fn pkcs7_tail_ok(data: Seq<u8>, p: int) -> bool {
    forall|i: int| data.len() - p <= i < data.len() ==> data[i] == p as u8
}

impl Padding for Pkcs7Padding {
    /// The pad count is one byte, so a block holds at most 255 bytes.
    open spec fn spec_block_size_ok(n: nat) -> bool {
        n < 256
    }

    open spec fn spec_padding(data: Seq<u8>, n: nat) -> Seq<u8> {
        pkcs7_pad(data, n)
    }

    open spec fn spec_unpadding(data: Seq<u8>, n: nat) -> Result<Seq<u8>, PaddingError> {
        if data.len() % n != 0 {
            Err(PaddingError::BadData)
        } else if data.len() == 0 {
            Err(PaddingError::BadPadding)
        } else {
            let p = data.last() as int;
            if p < 1 || p > n || !pkcs7_tail_ok(data, p) {
                Err(PaddingError::BadPadding)
            } else {
                Ok(data.take(data.len() - p))
            }
        }
    }

    proof fn lemma_round_trip(data: Seq<u8>, n: nat) {
        let padded = pkcs7_pad(data, n);
        let p = n - data.len() % n;
        assert(padded.len() == data.len() + p);
        let q = data.len() as int / n as int;
        let r = data.len() as int % n as int;
        vstd::arithmetic::div_mod::lemma_fundamental_div_mod(data.len() as int, n as int);
        assert(padded.len() == (q + 1) * n) by (nonlinear_arith)
            requires
                data.len() == n * q + r,
                padded.len() == data.len() + p,
                p == n - r,
        ;
        vstd::arithmetic::div_mod::lemma_mod_multiples_basic(q + 1, n as int);
        assert(padded.len() % n == 0);
        assert(padded.len() > 0);
        assert(padded.last() == p as u8);
        assert(padded.take(padded.len() - p) =~= data);
    }

    fn padding(data: &[u8], n: usize) -> (r: Vec<u8>) {
        let pad = n - data.len() % n;
        let mut out = slice_to_vec(data);
        let mut i: usize = 0;
        while i < pad
            invariant
                i <= pad,
                pad == n - data@.len() % n as nat,
                out@ =~= data@ + Seq::new(i as nat, |k: int| pad as u8),
            decreases pad - i,
        {
            out.push(pad as u8);
            i += 1;
        }
        out
    }

    fn unpadding(data: &[u8], n: usize) -> (r: Result<Vec<u8>, PaddingError>) {
        if data.len() % n != 0 {
            return Err(PaddingError::BadData);
        }
        if data.len() == 0 {
            return Err(PaddingError::BadPadding);
        }
        let pad = data[data.len() - 1];
        if pad < 1 || n < pad as usize {
            return Err(PaddingError::BadPadding);
        }
        proof {
            let len = data@.len() as int;
            vstd::arithmetic::div_mod::lemma_fundamental_div_mod(len, n as int);
            assert(len >= n) by (nonlinear_arith)
                requires
                    len == n * (len / n as int),
                    len > 0,
                    n > 0,
            ;
        }
        let data_len = data.len() - pad as usize;
        let mut ok = true;
        let mut i: usize = data_len;
        while i < data.len()
            invariant
                data_len <= i <= data@.len(),
                data_len == data@.len() - pad,
                ok == (forall|k: int| data_len <= k < i ==> data@[k] == pad),
            decreases data@.len() - i,
        {
            if data[i] != pad {
                ok = false;
            }
            i += 1;
        }
        if ok {
            let out = slice_to_vec(slice_subrange(data, 0, data_len));
            assert(out@ =~= data@.take(data_len as int));
            Ok(out)
        } else {
            Err(PaddingError::BadPadding)
        }
    }
}

} // verus!

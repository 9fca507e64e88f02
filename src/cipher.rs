use vstd::prelude::*;

use crate::utils::padding::{Padding, PaddingError};

verus! {

/// Why a decryption gave no plaintext.
#[derive(Debug, PartialEq, Eq, Structural)]
pub enum DecryptFail {
    /// The authentication tag did not match.
    Auth,
    /// The plaintext's padding was malformed.
    UnPadding(PaddingError),
}

impl From<PaddingError> for DecryptFail {
    fn from(err: PaddingError) -> (r: DecryptFail)
        ensures
            r == DecryptFail::UnPadding(err),
    {
        DecryptFail::UnPadding(err)
    }
}

impl vstd::std_specs::convert::FromSpecImpl<PaddingError> for DecryptFail {
    open spec fn obeys_from_spec() -> bool {
        true
    }

    open spec fn from_spec(err: PaddingError) -> DecryptFail {
        DecryptFail::UnPadding(err)
    }
}

/// A cipher on single blocks of a fixed size.
pub trait SingleBlockEncrypt {
    /// What encrypting one block gives.
    spec fn spec_encrypt(&self, block: Seq<u8>) -> Seq<u8>;

    /// The block size.
    fn bs() -> (r: usize)
        ensures
            r == 16,
    ;

    /// Encrypts one block.
    fn encrypt(&self, data: &[u8]) -> (r: Vec<u8>)
        requires
            data@.len() == 16,
        ensures
            r@ == self.spec_encrypt(data@),
            r@.len() == 16,
    ;
}

/// The inverse of a cipher on single blocks.
pub trait SingleBlockDecrypt {
    /// What decrypting one block gives.
    spec fn spec_decrypt(&self, block: Seq<u8>) -> Seq<u8>;

    /// The block size.
    fn bs() -> (r: usize)
        ensures
            r == 16,
    ;

    /// Decrypts one block.
    fn decrypt(&self, data: &[u8]) -> (r: Vec<u8>)
        requires
            data@.len() == 16,
        ensures
            r@ == self.spec_decrypt(data@),
            r@.len() == 16,
    ;
}

/// A block mode that pads its input to whole blocks.
pub trait BlockEncrypt {
    /// The block size.
    fn bs(&self) -> (r: usize)
        ensures
            r == 16,
    ;

    /// Pads `data` with `P` and encrypts it block by block.
    fn encrypt<P: Padding>(&mut self, data: &[u8]) -> Vec<u8>
        requires
            P::spec_block_size_ok(16),
            P::spec_padding(data@, 16).len() % 16 == 0,
    ;
}

/// The inverse of a padding block mode.
pub trait BlockDecrypt {
    /// The block size.
    fn bs(&self) -> (r: usize)
        ensures
            r == 16,
    ;

    /// Decrypts whole blocks and strips the padding `P`.
    fn decrypt<P: Padding>(&mut self, data: &[u8]) -> Result<Vec<u8>, DecryptFail>;
}

/// A stream cipher: any length in, the same length out.
pub trait StreamEncrypt {
    fn encrypt(&mut self, data: &[u8]) -> Vec<u8>;
}

/// The inverse of a stream cipher.
pub trait StreamDecrypt {
    fn decrypt(&mut self, data: &[u8]) -> Vec<u8>;
}

/// A block mode with ciphertext stealing: at least one block in, the same
/// length out.
pub trait CtsBlockEncrypt {
    fn encrypt(&mut self, data: &[u8]) -> Vec<u8>
        requires
            data@.len() >= 16,
    ;
}

/// The inverse of a block mode with ciphertext stealing.
pub trait CtsBlockDecrypt {
    fn decrypt(&mut self, data: &[u8]) -> Vec<u8>
        requires
            data@.len() >= 16,
    ;
}

/// Authenticated encryption: ciphertext and tag.
pub trait AeadStreamEncrypt {
    /// Whether `n` more bytes of text can still be authenticated.
    spec fn accepts(&self, n: nat) -> bool;

    fn encrypt(&mut self, data: &[u8]) -> (Vec<u8>, Vec<u8>)
        requires
            old(self).accepts(data@.len()),
    ;
}

/// Authenticated decryption: the plaintext only when the tag matches.
pub trait AeadStreamDecrypt {
    /// Whether `n` more bytes of text can still be authenticated.
    spec fn accepts(&self, n: nat) -> bool;

    fn decrypt(&mut self, data: &[u8], tag: &[u8]) -> Result<Vec<u8>, DecryptFail>
        requires
            old(self).accepts(data@.len()),
    ;
}

} // verus!

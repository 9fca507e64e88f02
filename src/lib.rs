use vstd::prelude::*;

pub mod aes;
pub mod cipher;
pub mod mode;
pub mod state;
pub mod tables;
pub mod utils;

pub use crate::aes::AES;

verus! {

} // verus!

use vstd::prelude::*;

pub mod cbc;
pub mod ctr;
pub mod ecb;
pub mod gcm;
pub mod xex;

pub use self::cbc::Cbc;
pub use self::ctr::Ctr;
pub use self::ecb::Ecb;
pub use self::gcm::Gcm;
pub use self::xex::{Xex, Xts};

verus! {

} // verus!

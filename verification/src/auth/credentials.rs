//! The capability to fetch named credentials. Implementations live with the
//! vault client outside the library; nothing is promised about what they
//! return.

use vstd::prelude::*;

use crate::error::Error;

verus! {

pub trait CredentialManager {
    fn get(&self, key: &str) -> Result<String, Error>;
}

} // verus!

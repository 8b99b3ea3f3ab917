//! Opaque fixed-size identities for accounts: learners and issued reward
//! tokens.  An identity is 256 bits wide, held as four 64-bit words; the
//! guards only ever compare identities for equality.

use vstd::prelude::*;

verus! {

/// A 256-bit account identity, as four 64-bit words.
///
/// Used both for a learner's identity (the owner of a progress record) and
/// for the identifier of an issued reward token.
#[derive(Clone, Copy, PartialEq, Eq, Structural, Debug, Hash)]
pub struct AccountId {
    pub w0: u64,
    pub w1: u64,
    pub w2: u64,
    pub w3: u64,
}

impl AccountId {
    /// Builds an identity from its four words.
    pub fn new(w0: u64, w1: u64, w2: u64, w3: u64) -> (r: AccountId)
        ensures
            r == (AccountId { w0, w1, w2, w3 }),
    {
        AccountId { w0, w1, w2, w3 }
    }
}

} // verus!

//! Hashes, certifications and the errors that the state store reports.

use crate::height_map::Height;
use vstd::prelude::*;

verus! {

/// The bytes of a cryptographic hash.
pub type CryptoHash = Vec<u8>;

/// The root hash of a checkpoint: the hash of its manifest.
pub type CryptoHashOfState = Vec<u8>;

/// The hash of the part of a state that is certified every round.
pub type CryptoHashOfPartialState = Vec<u8>;

/// A signed attestation of the partial state hash at a height.
#[derive(Clone, Debug, PartialEq, Eq)]
pub struct Certification {
    pub height: Height,
    /// The hash that was signed.
    pub hash: CryptoHashOfPartialState,
    pub signature: Vec<u8>,
}

/// How much of a state is committed.
#[derive(Clone, Copy, Debug, PartialEq, Eq, Structural)]
pub enum CertificationScope {
    /// Only the certified part of the state is hashed; no checkpoint is made.
    Metadata,
    /// A checkpoint is made and its manifest is computed.
    Full,
}

/// Selects states by whether they are certified.
#[derive(Clone, Copy, Debug, PartialEq, Eq, Structural)]
pub struct CertificationMask {
    pub certified: bool,
    pub uncertified: bool,
}

impl CertificationMask {
    /// Whether a state with (`true`) or without (`false`) a certification
    /// passes the mask.
    pub open spec fn admits(self, is_certified: bool) -> bool {
        if is_certified {
            self.certified
        } else {
            self.uncertified
        }
    }

    /// The mask that admits only certified states.
    pub fn cert_certified() -> (m: Self)
        ensures
            m == (CertificationMask { certified: true, uncertified: false }),
    {
        CertificationMask { certified: true, uncertified: false }
    }

    /// The mask that admits only states without a certification.
    pub fn cert_uncertified() -> (m: Self)
        ensures
            m == (CertificationMask { certified: false, uncertified: true }),
    {
        CertificationMask { certified: false, uncertified: true }
    }

    /// The mask that admits every state.
    pub fn cert_any() -> (m: Self)
        ensures
            m == (CertificationMask { certified: true, uncertified: true }),
    {
        CertificationMask { certified: true, uncertified: true }
    }

    /// Whether a state with (`true`) or without (`false`) a certification
    /// passes the mask.
    pub fn matches(&self, is_certified: bool) -> (b: bool)
        ensures
            b == self.admits(is_certified),
    {
        if is_certified {
            self.certified
        } else {
            self.uncertified
        }
    }
}

/// The hash is not there yet; asking again later may succeed.
#[derive(Clone, Copy, Debug, PartialEq, Eq, Structural)]
pub enum TransientStateHashError {
    /// The state at this height has not been committed yet.
    StateNotCommittedYet(Height),
    /// The state is committed, its hash is still being computed.
    HashNotComputedYet(Height),
}

/// The hash will never be there.
#[derive(Clone, Copy, Debug, PartialEq, Eq, Structural)]
pub enum PermanentStateHashError {
    /// The state at this height was removed.
    StateRemoved(Height),
    /// The state at this height was committed without a checkpoint.
    StateNotFullyCertified(Height),
}

/// Why the root hash of a state cannot be given.
#[derive(Clone, Copy, Debug, PartialEq, Eq, Structural)]
pub enum StateHashError {
    Transient(TransientStateHashError),
    Permanent(PermanentStateHashError),
}

/// Why a state cannot be given.
#[derive(Clone, Copy, Debug, PartialEq, Eq, Structural)]
pub enum StateManagerError {
    /// The state at this height was removed and is not recoverable.
    StateRemoved(Height),
    /// The state at this height has not been committed yet.
    StateNotCommittedYet(Height),
}

/// A value together with the height it belongs to.
#[derive(Clone, Debug, PartialEq, Eq)]
pub struct Labeled<V> {
    pub height: Height,
    pub value: V,
}

/// Whether two hashes hold the same bytes.
pub fn hash_eq(a: &Vec<u8>, b: &Vec<u8>) -> (same: bool)
    ensures
        same == (a@ == b@),
{
    let same = *a == *b;
    assert((a@ == b@) == (a@ =~= b@));
    same
}

} // verus!

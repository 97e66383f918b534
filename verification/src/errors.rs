//! The ways a registry operation can be rejected.

use vstd::prelude::*;

verus! {

/// Every rejected operation reports exactly one of these errors, and a
/// rejected operation never mutates the registry.
#[derive(Clone, Copy, Debug, PartialEq, Eq, Structural)]
pub enum Error {
    /// A create was attempted on a claim that already has an owner.
    ProofAlreadyExist,
    /// The claim is longer than the configured maximum length.
    ClaimTooLong,
    /// A revoke or transfer was attempted on a claim nobody has registered.
    ClaimNotExist,
    /// A revoke or transfer was attempted by a caller who is not the owner.
    NotClaimOwner,
}

} // verus!

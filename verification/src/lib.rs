//! A proof-of-existence claim registry.
//!
//! The registry records which account first registered an arbitrary byte-string
//! claim, and lets the current owner revoke the claim or transfer it to another
//! account. It is a deterministic state machine: the host resolves an
//! authenticated caller identity and the current block height, then applies
//! operations strictly sequentially; the registry itself does no I/O and no
//! authentication.

use vstd::prelude::*;

pub mod errors;
pub mod events;
pub mod laws;
pub mod pallet;

verus! {

/// An authenticated account identity, as handed in by the host's
/// signed-origin resolver.
pub type AccountId = u64;

/// The host chain's block height, read by the host at call time and used by
/// the registry only as a timestamp.
pub type BlockHeight = u64;

} // verus!

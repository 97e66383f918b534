//! Laws of the registry state machine, stated over the spec transitions that
//! the operations' contracts use and proved for every state and input.

use vstd::prelude::*;

use crate::errors::Error;
use crate::pallet::{spec_create, spec_revoke, spec_transfer, PalletView, RegistryEntry};
use crate::{AccountId, BlockHeight};

verus! {

/// Creating a claim within the length bound and then immediately revoking it
/// returns the claim mapping to its prior state: both steps succeed and no
/// residual entry is left.
pub proof fn law_create_then_revoke_round_trip(
    s: PalletView,
    caller: AccountId,
    claim: Seq<u8>,
    now: BlockHeight,
)
    requires
        claim.len() <= s.max_claim_length,
        !s.proofs.dom().contains(claim),
    ensures
        spec_create(s, caller, claim, now).1 == Ok::<(), Error>(()),
        spec_revoke(spec_create(s, caller, claim, now).0, caller, claim).1 == Ok::<(), Error>(()),
        spec_revoke(spec_create(s, caller, claim, now).0, caller, claim).0.proofs == s.proofs,
{
    let s1 = spec_create(s, caller, claim, now).0;
    assert(spec_revoke(s1, caller, claim).0.proofs =~= s.proofs);
}

/// A claim can be created once: a second create of the same claim, by any
/// caller, fails with `ProofAlreadyExist` and leaves the first caller's
/// entry — and everything else — unchanged.
pub proof fn law_create_is_exclusive(
    s: PalletView,
    first: AccountId,
    second: AccountId,
    claim: Seq<u8>,
    now1: BlockHeight,
    now2: BlockHeight,
)
    requires
        claim.len() <= s.max_claim_length,
        !s.proofs.dom().contains(claim),
    ensures
        spec_create(s, first, claim, now1).1 == Ok::<(), Error>(()),
        spec_create(spec_create(s, first, claim, now1).0, second, claim, now2).1 == Err::<
            (),
            Error,
        >(Error::ProofAlreadyExist),
        spec_create(spec_create(s, first, claim, now1).0, second, claim, now2).0 == spec_create(
            s,
            first,
            claim,
            now1,
        ).0,
        spec_create(s, first, claim, now1).0.proofs[claim] == (RegistryEntry {
            owner: first,
            registered_at: now1,
        }),
{
}

/// A claim nobody has registered can be neither revoked nor transferred:
/// both fail with `ClaimNotExist` and mutate nothing.
pub proof fn law_absent_claim_rejected(
    s: PalletView,
    caller: AccountId,
    claim: Seq<u8>,
    recipient: AccountId,
    now: BlockHeight,
)
    requires
        !s.proofs.dom().contains(claim),
    ensures
        spec_revoke(s, caller, claim).1 == Err::<(), Error>(Error::ClaimNotExist),
        spec_revoke(s, caller, claim).0 == s,
        spec_transfer(s, caller, claim, recipient, now).1 == Err::<(), Error>(
            Error::ClaimNotExist,
        ),
        spec_transfer(s, caller, claim, recipient, now).0 == s,
{
}

/// Only the owner can revoke: any other caller fails with `NotClaimOwner`
/// and the entry stays unchanged, while the owner's revoke succeeds and
/// removes the entry.
pub proof fn law_revoke_only_by_owner(
    s: PalletView,
    owner: AccountId,
    other: AccountId,
    claim: Seq<u8>,
)
    requires
        s.proofs.dom().contains(claim),
        s.proofs[claim].owner == owner,
        other != owner,
    ensures
        spec_revoke(s, other, claim).1 == Err::<(), Error>(Error::NotClaimOwner),
        spec_revoke(s, other, claim).0 == s,
        spec_revoke(s, owner, claim).1 == Ok::<(), Error>(()),
        spec_revoke(s, owner, claim).0.proofs == s.proofs.remove(claim),
        !spec_revoke(s, owner, claim).0.proofs.dom().contains(claim),
{
}

/// Only the owner can transfer, to any recipient: the owner's transfer
/// succeeds and the stored entry becomes the recipient with the height at
/// the time of transfer — not the original creation height — while any other
/// caller fails with `NotClaimOwner` and mutates nothing.
pub proof fn law_transfer_only_by_owner(
    s: PalletView,
    owner: AccountId,
    other: AccountId,
    claim: Seq<u8>,
    recipient: AccountId,
    now: BlockHeight,
)
    requires
        s.proofs.dom().contains(claim),
        s.proofs[claim].owner == owner,
        other != owner,
    ensures
        spec_transfer(s, owner, claim, recipient, now).1 == Ok::<(), Error>(()),
        spec_transfer(s, owner, claim, recipient, now).0.proofs[claim] == (RegistryEntry {
            owner: recipient,
            registered_at: now,
        }),
        spec_transfer(s, owner, claim, recipient, now).0.proofs.dom() =~= s.proofs.dom(),
        spec_transfer(s, other, claim, recipient, now).1 == Err::<(), Error>(
            Error::NotClaimOwner,
        ),
        spec_transfer(s, other, claim, recipient, now).0 == s,
{
}

/// The length bound is exact: a claim of exactly `max_claim_length` bytes
/// that nobody holds is accepted, while one even a single byte longer is
/// rejected with `ClaimTooLong` before any mutation.
pub proof fn law_length_bound_is_exact(
    s: PalletView,
    caller: AccountId,
    claim: Seq<u8>,
    now: BlockHeight,
)
    ensures
        claim.len() == s.max_claim_length && !s.proofs.dom().contains(claim) ==> spec_create(
            s,
            caller,
            claim,
            now,
        ).1 == Ok::<(), Error>(()),
        claim.len() > s.max_claim_length ==> spec_create(s, caller, claim, now).1 == Err::<
            (),
            Error,
        >(Error::ClaimTooLong) && spec_create(s, caller, claim, now).0 == s,
{
}

} // verus!

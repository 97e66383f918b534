use poe::errors::Error;
use poe::events::Event;
use poe::pallet::{Config, Pallet, RegistryEntry};

fn registry(max_claim_length: u32) -> Pallet {
    Pallet::new(Config { max_claim_length })
}

#[test]
fn create_stores_owner_and_height() {
    let mut p = registry(16);
    let r = p.create_claim(1, b"hello".to_vec(), 10);
    assert_eq!(r, Ok(()));
    assert_eq!(
        p.proofs(&b"hello".to_vec()),
        Some(RegistryEntry { owner: 1, registered_at: 10 })
    );
    assert_eq!(p.events(), &vec![Event::ClaimCreated(1, b"hello".to_vec())]);
}

#[test]
fn create_then_revoke_round_trips() {
    let mut p = registry(16);
    assert_eq!(p.create_claim(1, b"deed".to_vec(), 3), Ok(()));
    assert_eq!(p.revoke_claim(1, b"deed".to_vec()), Ok(()));
    assert_eq!(p.proofs(&b"deed".to_vec()), None);
}

#[test]
fn second_create_fails_and_keeps_first_entry() {
    let mut p = registry(16);
    assert_eq!(p.create_claim(1, b"deed".to_vec(), 10), Ok(()));
    assert_eq!(
        p.create_claim(2, b"deed".to_vec(), 11),
        Err(Error::ProofAlreadyExist)
    );
    assert_eq!(
        p.proofs(&b"deed".to_vec()),
        Some(RegistryEntry { owner: 1, registered_at: 10 })
    );
    assert_eq!(p.events().len(), 1);
}

#[test]
fn revoke_of_absent_claim_fails() {
    let mut p = registry(16);
    assert_eq!(p.revoke_claim(1, b"ghost".to_vec()), Err(Error::ClaimNotExist));
    assert_eq!(p.events(), &Vec::new());
}

#[test]
fn transfer_of_absent_claim_fails() {
    let mut p = registry(16);
    assert_eq!(
        p.transfer_claim(1, b"ghost".to_vec(), 2, 5),
        Err(Error::ClaimNotExist)
    );
    assert_eq!(p.events(), &Vec::new());
}

#[test]
fn revoke_by_non_owner_fails_and_keeps_entry() {
    let mut p = registry(16);
    assert_eq!(p.create_claim(1, b"deed".to_vec(), 10), Ok(()));
    assert_eq!(p.revoke_claim(2, b"deed".to_vec()), Err(Error::NotClaimOwner));
    assert_eq!(
        p.proofs(&b"deed".to_vec()),
        Some(RegistryEntry { owner: 1, registered_at: 10 })
    );
    assert_eq!(p.revoke_claim(1, b"deed".to_vec()), Ok(()));
    assert_eq!(p.proofs(&b"deed".to_vec()), None);
}

#[test]
fn transfer_by_owner_rewrites_owner_and_height() {
    let mut p = registry(16);
    assert_eq!(p.create_claim(1, b"deed".to_vec(), 10), Ok(()));
    assert_eq!(p.transfer_claim(1, b"deed".to_vec(), 2, 20), Ok(()));
    assert_eq!(
        p.proofs(&b"deed".to_vec()),
        Some(RegistryEntry { owner: 2, registered_at: 20 })
    );
}

#[test]
fn transfer_by_non_owner_fails_and_keeps_entry() {
    let mut p = registry(16);
    assert_eq!(p.create_claim(1, b"deed".to_vec(), 10), Ok(()));
    assert_eq!(
        p.transfer_claim(3, b"deed".to_vec(), 2, 20),
        Err(Error::NotClaimOwner)
    );
    assert_eq!(
        p.proofs(&b"deed".to_vec()),
        Some(RegistryEntry { owner: 1, registered_at: 10 })
    );
}

#[test]
fn transfer_to_self_still_rewrites_height_and_emits() {
    let mut p = registry(16);
    assert_eq!(p.create_claim(1, b"deed".to_vec(), 10), Ok(()));
    assert_eq!(p.transfer_claim(1, b"deed".to_vec(), 1, 20), Ok(()));
    assert_eq!(
        p.proofs(&b"deed".to_vec()),
        Some(RegistryEntry { owner: 1, registered_at: 20 })
    );
    assert_eq!(
        p.events(),
        &vec![
            Event::ClaimCreated(1, b"deed".to_vec()),
            Event::ClaimTransferred(1, 1, b"deed".to_vec()),
        ]
    );
}

#[test]
fn claim_at_exact_bound_is_accepted() {
    let mut p = registry(4);
    assert_eq!(p.max_claim_length(), 4);
    assert_eq!(p.create_claim(1, vec![9u8; 4], 10), Ok(()));
    assert_eq!(
        p.proofs(&vec![9u8; 4]),
        Some(RegistryEntry { owner: 1, registered_at: 10 })
    );
}

#[test]
fn claim_one_byte_over_bound_is_rejected_without_mutation() {
    let mut p = registry(4);
    assert_eq!(p.create_claim(1, vec![9u8; 5], 10), Err(Error::ClaimTooLong));
    assert_eq!(p.proofs(&vec![9u8; 5]), None);
    assert_eq!(p.events(), &Vec::new());
}

#[test]
fn distinct_claims_live_side_by_side() {
    let mut p = registry(16);
    assert_eq!(p.create_claim(1, b"one".to_vec(), 5), Ok(()));
    assert_eq!(p.create_claim(2, b"two".to_vec(), 6), Ok(()));
    assert_eq!(p.revoke_claim(1, b"one".to_vec()), Ok(()));
    assert_eq!(p.proofs(&b"one".to_vec()), None);
    assert_eq!(
        p.proofs(&b"two".to_vec()),
        Some(RegistryEntry { owner: 2, registered_at: 6 })
    );
}

#[test]
fn revoked_claim_can_be_registered_again_by_anyone() {
    let mut p = registry(16);
    assert_eq!(p.create_claim(1, b"deed".to_vec(), 10), Ok(()));
    assert_eq!(p.revoke_claim(1, b"deed".to_vec()), Ok(()));
    assert_eq!(p.create_claim(2, b"deed".to_vec(), 12), Ok(()));
    assert_eq!(
        p.proofs(&b"deed".to_vec()),
        Some(RegistryEntry { owner: 2, registered_at: 12 })
    );
}

#[test]
fn end_to_end_scenario() {
    let a: u64 = 1;
    let b: u64 = 2;
    let mut p = registry(16);

    assert_eq!(p.create_claim(a, b"hello".to_vec(), 10), Ok(()));
    assert_eq!(
        p.proofs(&b"hello".to_vec()),
        Some(RegistryEntry { owner: a, registered_at: 10 })
    );
    assert_eq!(p.events(), &vec![Event::ClaimCreated(a, b"hello".to_vec())]);

    assert_eq!(p.transfer_claim(a, b"hello".to_vec(), b, 11), Ok(()));
    assert_eq!(
        p.proofs(&b"hello".to_vec()),
        Some(RegistryEntry { owner: b, registered_at: 11 })
    );
    assert_eq!(
        p.events(),
        &vec![
            Event::ClaimCreated(a, b"hello".to_vec()),
            Event::ClaimTransferred(a, b, b"hello".to_vec()),
        ]
    );

    assert_eq!(p.revoke_claim(a, b"hello".to_vec()), Err(Error::NotClaimOwner));
    assert_eq!(
        p.proofs(&b"hello".to_vec()),
        Some(RegistryEntry { owner: b, registered_at: 11 })
    );

    assert_eq!(p.revoke_claim(b, b"hello".to_vec()), Ok(()));
    assert_eq!(p.proofs(&b"hello".to_vec()), None);
    assert_eq!(
        p.events(),
        &vec![
            Event::ClaimCreated(a, b"hello".to_vec()),
            Event::ClaimTransferred(a, b, b"hello".to_vec()),
            Event::ClaimRevoked(b, b"hello".to_vec()),
        ]
    );
}

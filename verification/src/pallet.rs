//! The claim registry state machine.
//!
//! The registry owns one mapping from claim bytes to a [`RegistryEntry`] and
//! an append-only event log. Three operations mutate it — create, revoke and
//! transfer — each applied sequentially by the host with an already
//! authenticated caller. Every operation either fully succeeds, performing
//! one mapping write and appending one event, or leaves the registry
//! untouched and reports one [`Error`].

use vstd::prelude::*;

use crate::errors::Error;
use crate::events::{events_view, lemma_events_view_push, Event, EventView};
use crate::{AccountId, BlockHeight};

verus! {

/// Registry configuration, fixed once at system assembly: the longest claim,
/// in bytes, that the registry accepts. It must be positive.
#[derive(Clone, Copy, Debug, PartialEq, Eq, Structural)]
pub struct Config {
    pub max_claim_length: u32,
}

/// What the registry stores for a claim: its current owner and the height at
/// which the entry was most recently written — by the create that made it or
/// by the latest transfer, whichever came last.
#[derive(Clone, Copy, Debug, PartialEq, Eq, Structural)]
pub struct RegistryEntry {
    pub owner: AccountId,
    pub registered_at: BlockHeight,
}

/// The registry as mathematics: the claim mapping, the event log so far, and
/// the configured length bound.
#[verifier::ext_equal]
pub struct PalletView {
    pub max_claim_length: nat,
    pub proofs: Map<Seq<u8>, RegistryEntry>,
    pub events: Seq<EventView>,
}

/// The claim registry. It performs no I/O and no authentication; the host
/// resolves the caller identity and the current block height and must apply
/// operations strictly sequentially.
pub struct Pallet {
    config: Config,
    proofs: Vec<(Vec<u8>, RegistryEntry)>,
    events: Vec<Event>,
}

/// Whether some stored pair carries exactly the bytes `claim`.
spec fn contains_claim(entries: Seq<(Vec<u8>, RegistryEntry)>, claim: Seq<u8>) -> bool {
    exists|i: int| 0 <= i < entries.len() && entries[i].0@ == claim
}

/// An index whose pair carries the bytes `claim`, when one exists.
spec fn claim_index(entries: Seq<(Vec<u8>, RegistryEntry)>, claim: Seq<u8>) -> int {
    choose|i: int| 0 <= i < entries.len() && entries[i].0@ == claim
}

/// The mapping that a sequence of stored pairs represents.
spec fn map_of(entries: Seq<(Vec<u8>, RegistryEntry)>) -> Map<Seq<u8>, RegistryEntry> {
    Map::new(
        |claim: Seq<u8>| contains_claim(entries, claim),
        |claim: Seq<u8>| entries[claim_index(entries, claim)].1,
    )
}

/// Whether no two stored pairs carry the same claim bytes.
spec fn unique_claims(entries: Seq<(Vec<u8>, RegistryEntry)>) -> bool {
    forall|i: int, j: int|
        0 <= i < j < entries.len() ==> (#[trigger] entries[i]).0@ != (#[trigger] entries[j]).0@
}

impl View for Pallet {
    type V = PalletView;

    closed spec fn view(&self) -> PalletView {
        PalletView {
            max_claim_length: self.config.max_claim_length as nat,
            proofs: map_of(self.proofs@),
            events: events_view(self.events@),
        }
    }
}

/// What a create does: reject an over-long claim with `ClaimTooLong`, reject
/// an already-owned claim with `ProofAlreadyExist`, both without mutating
/// anything; otherwise store `(caller, now)` under the claim and append a
/// `ClaimCreated` event.
pub open spec fn spec_create(
    s: PalletView,
    caller: AccountId,
    claim: Seq<u8>,
    now: BlockHeight,
) -> (PalletView, Result<(), Error>) {
    if claim.len() > s.max_claim_length {
        (s, Err(Error::ClaimTooLong))
    } else if s.proofs.dom().contains(claim) {
        (s, Err(Error::ProofAlreadyExist))
    } else {
        (
            PalletView {
                max_claim_length: s.max_claim_length,
                proofs: s.proofs.insert(
                    claim,
                    RegistryEntry { owner: caller, registered_at: now },
                ),
                events: s.events.push(EventView::ClaimCreated { owner: caller, claim }),
            },
            Ok(()),
        )
    }
}

/// What a revoke does: reject an absent claim with `ClaimNotExist` and a
/// caller other than the owner with `NotClaimOwner`, both without mutating
/// anything; otherwise delete the claim's entry and append a `ClaimRevoked`
/// event.
pub open spec fn spec_revoke(
    s: PalletView,
    caller: AccountId,
    claim: Seq<u8>,
) -> (PalletView, Result<(), Error>) {
    if !s.proofs.dom().contains(claim) {
        (s, Err(Error::ClaimNotExist))
    } else if s.proofs[claim].owner != caller {
        (s, Err(Error::NotClaimOwner))
    } else {
        (
            PalletView {
                max_claim_length: s.max_claim_length,
                proofs: s.proofs.remove(claim),
                events: s.events.push(EventView::ClaimRevoked { owner: caller, claim }),
            },
            Ok(()),
        )
    }
}

/// What a transfer does: reject an absent claim with `ClaimNotExist` and a
/// caller other than the owner with `NotClaimOwner`, both without mutating
/// anything; otherwise overwrite the claim's entry with `(recipient, now)` —
/// owner and timestamp both change — and append a `ClaimTransferred` event.
/// A transfer to the caller itself is not rejected: it rewrites the
/// timestamp and still emits the event.
pub open spec fn spec_transfer(
    s: PalletView,
    caller: AccountId,
    claim: Seq<u8>,
    recipient: AccountId,
    now: BlockHeight,
) -> (PalletView, Result<(), Error>) {
    if !s.proofs.dom().contains(claim) {
        (s, Err(Error::ClaimNotExist))
    } else if s.proofs[claim].owner != caller {
        (s, Err(Error::NotClaimOwner))
    } else {
        (
            PalletView {
                max_claim_length: s.max_claim_length,
                proofs: s.proofs.insert(
                    claim,
                    RegistryEntry { owner: recipient, registered_at: now },
                ),
                events: s.events.push(
                    EventView::ClaimTransferred { from: caller, to: recipient, claim },
                ),
            },
            Ok(()),
        )
    }
}

/// A key is in the represented mapping exactly when some stored pair carries it.
proof fn lemma_contains_iff_in_dom(entries: Seq<(Vec<u8>, RegistryEntry)>, claim: Seq<u8>)
    ensures
        map_of(entries).dom().contains(claim) == contains_claim(entries, claim),
{
}

/// With distinct keys, the pair at index `i` gives the mapping's value at its key.
proof fn lemma_map_of_at(entries: Seq<(Vec<u8>, RegistryEntry)>, i: int)
    requires
        unique_claims(entries),
        0 <= i < entries.len(),
    ensures
        map_of(entries).dom().contains(entries[i].0@),
        map_of(entries)[entries[i].0@] == entries[i].1,
{
    assert(contains_claim(entries, entries[i].0@));
    let j = claim_index(entries, entries[i].0@);
    assert(0 <= j < entries.len() && entries[j].0@ == entries[i].0@);
    if i < j {
        assert(entries[i].0@ != entries[j].0@);
    } else if j < i {
        assert(entries[j].0@ != entries[i].0@);
    }
    assert(j == i);
}

/// Pushing a pair with a fresh key inserts that key into the mapping.
proof fn lemma_map_of_push(
    entries: Seq<(Vec<u8>, RegistryEntry)>,
    pair: (Vec<u8>, RegistryEntry),
)
    requires
        unique_claims(entries),
        !contains_claim(entries, pair.0@),
    ensures
        unique_claims(entries.push(pair)),
        map_of(entries.push(pair)) == map_of(entries).insert(pair.0@, pair.1),
{
    let s2 = entries.push(pair);
    let n = entries.len() as int;
    assert forall|i: int, j: int| 0 <= i < j < s2.len() implies (#[trigger] s2[i]).0@ != (
    #[trigger] s2[j]).0@ by {
        if j < n {
            assert(s2[i] == entries[i] && s2[j] == entries[j]);
        } else {
            assert(s2[j] == pair);
            assert(s2[i] == entries[i]);
            assert(contains_claim(entries, entries[i].0@));
        }
    }
    let m2 = map_of(entries).insert(pair.0@, pair.1);
    assert forall|k: Seq<u8>| map_of(s2).dom().contains(k) == m2.dom().contains(k) by {
        if contains_claim(s2, k) {
            let w = choose|w: int| 0 <= w < s2.len() && s2[w].0@ == k;
            if w < n {
                assert(entries[w].0@ == k);
                assert(contains_claim(entries, k));
            } else {
                assert(k == pair.0@);
            }
        }
        if contains_claim(entries, k) {
            let w = choose|w: int| 0 <= w < entries.len() && entries[w].0@ == k;
            assert(s2[w].0@ == k);
            assert(contains_claim(s2, k));
        }
        if k == pair.0@ {
            assert(s2[n].0@ == k);
            assert(contains_claim(s2, k));
        }
        lemma_contains_iff_in_dom(entries, k);
    }
    assert forall|k: Seq<u8>| map_of(s2).dom().contains(k) implies map_of(s2)[k] == m2[k] by {
        if k == pair.0@ {
            assert(s2[n] == pair);
            lemma_map_of_at(s2, n);
        } else {
            assert(contains_claim(entries, k));
            let w = choose|w: int| 0 <= w < entries.len() && entries[w].0@ == k;
            assert(s2[w] == entries[w]);
            lemma_map_of_at(entries, w);
            lemma_map_of_at(s2, w);
        }
    }
    assert(map_of(s2) =~= m2);
}

/// Removing the pair at index `i` removes exactly its key from the mapping.
proof fn lemma_map_of_remove(entries: Seq<(Vec<u8>, RegistryEntry)>, i: int)
    requires
        unique_claims(entries),
        0 <= i < entries.len(),
    ensures
        unique_claims(entries.remove(i)),
        !contains_claim(entries.remove(i), entries[i].0@),
        map_of(entries.remove(i)) == map_of(entries).remove(entries[i].0@),
{
    let s2 = entries.remove(i);
    let n = entries.len() as int;
    let key = entries[i].0@;
    assert forall|p: int, q: int| 0 <= p < q < s2.len() implies (#[trigger] s2[p]).0@ != (
    #[trigger] s2[q]).0@ by {
        let p0 = if p < i { p } else { p + 1 };
        let q0 = if q < i { q } else { q + 1 };
        assert(s2[p] == entries[p0] && s2[q] == entries[q0]);
    }
    assert forall|j: int| 0 <= j < s2.len() implies (#[trigger] s2[j]).0@ != key by {
        let j0 = if j < i { j } else { j + 1 };
        assert(s2[j] == entries[j0]);
        if j0 < i {
            assert(entries[j0].0@ != entries[i].0@);
        } else {
            assert(entries[i].0@ != entries[j0].0@);
        }
    }
    let m2 = map_of(entries).remove(key);
    assert forall|k: Seq<u8>| map_of(s2).dom().contains(k) == m2.dom().contains(k) by {
        if contains_claim(s2, k) {
            let w = choose|w: int| 0 <= w < s2.len() && s2[w].0@ == k;
            let w0 = if w < i { w } else { w + 1 };
            assert(s2[w] == entries[w0]);
            assert(contains_claim(entries, k));
            assert(k != key);
        }
        if contains_claim(entries, k) && k != key {
            let w = choose|w: int| 0 <= w < entries.len() && entries[w].0@ == k;
            assert(w != i);
            let w2 = if w < i { w } else { w - 1 };
            assert(s2[w2] == entries[w]);
            assert(contains_claim(s2, k));
        }
        lemma_contains_iff_in_dom(entries, k);
    }
    assert forall|k: Seq<u8>| map_of(s2).dom().contains(k) implies map_of(s2)[k] == m2[k] by {
        let w = choose|w: int| 0 <= w < s2.len() && s2[w].0@ == k;
        let w0 = if w < i { w } else { w + 1 };
        assert(s2[w] == entries[w0]);
        lemma_map_of_at(s2, w);
        lemma_map_of_at(entries, w0);
        assert(k != key);
    }
    assert(map_of(s2) =~= m2);
}

/// Byte-for-byte equality of two claims.
fn claims_equal(a: &Vec<u8>, b: &Vec<u8>) -> (r: bool)
    ensures
        r == (a@ == b@),
{
    if a.len() != b.len() {
        return false;
    }
    let n: usize = a.len();
    let mut i: usize = 0;
    while i < n
        invariant
            n == a@.len(),
            a@.len() == b@.len(),
            i <= n,
            forall|j: int| 0 <= j < i ==> a@[j] == b@[j],
        decreases n - i,
    {
        if a[i] != b[i] {
            return false;
        }
        i = i + 1;
    }
    proof {
        assert(a@ =~= b@);
    }
    true
}

/// A copy of the claim's bytes.
fn clone_claim(claim: &Vec<u8>) -> (r: Vec<u8>)
    ensures
        r@ == claim@,
{
    let mut r: Vec<u8> = Vec::new();
    let mut i: usize = 0;
    while i < claim.len()
        invariant
            i <= claim@.len(),
            r@.len() == i,
            forall|j: int| 0 <= j < i ==> r@[j] == claim@[j],
        decreases claim@.len() - i,
    {
        r.push(claim[i]);
        i = i + 1;
    }
    proof {
        assert(r@ =~= claim@);
    }
    r
}

impl Pallet {
    /// Internal well-formedness: the length bound is positive, stored claim
    /// keys are pairwise distinct, and every stored claim respects the bound.
    pub closed spec fn wf(&self) -> bool {
        &&& self.config.max_claim_length >= 1
        &&& unique_claims(self.proofs@)
        &&& forall|i: int|
            0 <= i < self.proofs@.len() ==> (#[trigger] self.proofs@[i]).0@.len()
                <= self.config.max_claim_length
    }

    /// A fresh registry: no claims, no events, the given configuration.
    pub fn new(config: Config) -> (p: Pallet)
        requires
            config.max_claim_length >= 1,
        ensures
            p.wf(),
            p@.max_claim_length == config.max_claim_length as nat,
            p@.proofs == Map::<Seq<u8>, RegistryEntry>::empty(),
            p@.events == Seq::<EventView>::empty(),
    {
        let p = Pallet { config, proofs: Vec::new(), events: Vec::new() };
        proof {
            assert(p@.proofs =~= Map::<Seq<u8>, RegistryEntry>::empty());
            assert(p@.events =~= Seq::<EventView>::empty());
        }
        p
    }

    /// The configured length bound.
    pub fn max_claim_length(&self) -> (r: u32)
        ensures
            r as nat == self@.max_claim_length,
    {
        self.config.max_claim_length
    }

    /// The index of the stored pair carrying `claim`, when one is stored.
    fn find_index(&self, claim: &Vec<u8>) -> (r: Option<usize>)
        ensures
            match r {
                Some(i) => 0 <= i < self.proofs@.len() && self.proofs@[i as int].0@ == claim@,
                None => !contains_claim(self.proofs@, claim@),
            },
    {
        let n: usize = self.proofs.len();
        let mut i: usize = 0;
        while i < n
            invariant
                n == self.proofs@.len(),
                i <= n,
                forall|j: int| 0 <= j < i ==> (#[trigger] self.proofs@[j]).0@ != claim@,
            decreases n - i,
        {
            if claims_equal(&self.proofs[i].0, claim) {
                return Some(i);
            }
            i = i + 1;
        }
        None
    }

    /// The stored entry for `claim`: its current owner and the height at
    /// which it was most recently written, or `None` when nobody holds it.
    pub fn proofs(&self, claim: &Vec<u8>) -> (r: Option<RegistryEntry>)
        requires
            self.wf(),
        ensures
            r == (if self@.proofs.dom().contains(claim@) {
                Some(self@.proofs[claim@])
            } else {
                None::<RegistryEntry>
            }),
    {
        proof {
            lemma_contains_iff_in_dom(self.proofs@, claim@);
        }
        match self.find_index(claim) {
            Some(i) => {
                proof {
                    lemma_map_of_at(self.proofs@, i as int);
                }
                Some(self.proofs[i].1)
            },
            None => None,
        }
    }

    /// The events emitted so far, oldest first.
    pub fn events(&self) -> (r: &Vec<Event>)
        ensures
            events_view(r@) == self@.events,
    {
        &self.events
    }

    /// Register `claim` for `caller` at height `now`.
    ///
    /// Rejects a claim longer than the configured bound with `ClaimTooLong`
    /// and an already-owned claim with `ProofAlreadyExist`, mutating nothing;
    /// otherwise stores `(caller, now)` under the claim and emits
    /// `ClaimCreated(caller, claim)`.
    pub fn create_claim(
        &mut self,
        caller: AccountId,
        claim: Vec<u8>,
        now: BlockHeight,
    ) -> (r: Result<(), Error>)
        requires
            old(self).wf(),
        ensures
            final(self).wf(),
            final(self)@ == spec_create(old(self)@, caller, claim@, now).0,
            r == spec_create(old(self)@, caller, claim@, now).1,
    {
        if claim.len() as u64 > self.config.max_claim_length as u64 {
            return Err(Error::ClaimTooLong);
        }
        proof {
            lemma_contains_iff_in_dom(self.proofs@, claim@);
        }
        match self.find_index(&claim) {
            Some(_) => Err(Error::ProofAlreadyExist),
            None => {
                let entry = RegistryEntry { owner: caller, registered_at: now };
                let stored = clone_claim(&claim);
                let event = Event::ClaimCreated(caller, claim);
                proof {
                    lemma_map_of_push(self.proofs@, (stored, entry));
                    lemma_events_view_push(self.events@, event);
                }
                self.proofs.push((stored, entry));
                self.events.push(event);
                proof {
                    assert(final(self)@ =~= spec_create(old(self)@, caller, stored@, now).0);
                }
                Ok(())
            },
        }
    }

    /// Remove `caller`'s entry for `claim`.
    ///
    /// Rejects an absent claim with `ClaimNotExist` and a caller other than
    /// the stored owner with `NotClaimOwner`, mutating nothing; otherwise
    /// deletes the entry and emits `ClaimRevoked(caller, claim)`.
    pub fn revoke_claim(&mut self, caller: AccountId, claim: Vec<u8>) -> (r: Result<(), Error>)
        requires
            old(self).wf(),
        ensures
            final(self).wf(),
            final(self)@ == spec_revoke(old(self)@, caller, claim@).0,
            r == spec_revoke(old(self)@, caller, claim@).1,
    {
        proof {
            lemma_contains_iff_in_dom(self.proofs@, claim@);
        }
        match self.find_index(&claim) {
            None => Err(Error::ClaimNotExist),
            Some(i) => {
                proof {
                    lemma_map_of_at(self.proofs@, i as int);
                }
                if self.proofs[i].1.owner != caller {
                    return Err(Error::NotClaimOwner);
                }
                let ghost claim_bytes = claim@;
                let event = Event::ClaimRevoked(caller, claim);
                proof {
                    lemma_map_of_remove(self.proofs@, i as int);
                    lemma_events_view_push(self.events@, event);
                }
                let _removed = self.proofs.remove(i);
                self.events.push(event);
                proof {
                    assert(final(self)@ =~= spec_revoke(old(self)@, caller, claim_bytes).0);
                }
                Ok(())
            },
        }
    }

    /// Hand `caller`'s entry for `claim` to `recipient` at height `now`.
    ///
    /// Rejects an absent claim with `ClaimNotExist` and a caller other than
    /// the stored owner with `NotClaimOwner`, mutating nothing; otherwise
    /// overwrites the entry with `(recipient, now)` — the previous owner
    /// keeps no rights — and emits
    /// `ClaimTransferred(caller, recipient, claim)`. A transfer to the caller
    /// itself is a valid no-op transfer that still rewrites the timestamp.
    pub fn transfer_claim(
        &mut self,
        caller: AccountId,
        claim: Vec<u8>,
        recipient: AccountId,
        now: BlockHeight,
    ) -> (r: Result<(), Error>)
        requires
            old(self).wf(),
        ensures
            final(self).wf(),
            final(self)@ == spec_transfer(old(self)@, caller, claim@, recipient, now).0,
            r == spec_transfer(old(self)@, caller, claim@, recipient, now).1,
    {
        proof {
            lemma_contains_iff_in_dom(self.proofs@, claim@);
        }
        match self.find_index(&claim) {
            None => Err(Error::ClaimNotExist),
            Some(i) => {
                proof {
                    lemma_map_of_at(self.proofs@, i as int);
                }
                if self.proofs[i].1.owner != caller {
                    return Err(Error::NotClaimOwner);
                }
                let entry = RegistryEntry { owner: recipient, registered_at: now };
                let event = Event::ClaimTransferred(caller, recipient, claim);
                proof {
                    lemma_map_of_remove(self.proofs@, i as int);
                }
                let stored = self.proofs.remove(i).0;
                proof {
                    lemma_map_of_push(self.proofs@, (stored, entry));
                    lemma_events_view_push(self.events@, event);
                }
                self.proofs.push((stored, entry));
                self.events.push(event);
                proof {
                    assert(final(self)@.proofs =~= spec_transfer(
                        old(self)@,
                        caller,
                        stored@,
                        recipient,
                        now,
                    ).0.proofs);
                    assert(final(self)@ =~= spec_transfer(
                        old(self)@,
                        caller,
                        stored@,
                        recipient,
                        now,
                    ).0);
                }
                Ok(())
            },
        }
    }

    /// Every claim the registry holds respects the configured length bound.
    pub proof fn lemma_claim_lengths_bounded(&self)
        requires
            self.wf(),
        ensures
            forall|c: Seq<u8>|
                #[trigger] self@.proofs.dom().contains(c) ==> c.len() <= self@.max_claim_length,
    {
        assert forall|c: Seq<u8>| #[trigger] self@.proofs.dom().contains(c) implies c.len()
            <= self@.max_claim_length by {
            lemma_contains_iff_in_dom(self.proofs@, c);
            let w = choose|w: int| 0 <= w < self.proofs@.len() && self.proofs@[w].0@ == c;
            assert(self.proofs@[w].0@.len() <= self.config.max_claim_length);
        }
    }
}

} // verus!

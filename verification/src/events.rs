//! The events a successful registry operation emits.

use vstd::prelude::*;

use crate::AccountId;

verus! {

/// A record of one successful registry operation. Exactly one event is
/// appended to the log per success, and none on failure.
#[derive(Clone, Debug, PartialEq, Eq)]
pub enum Event {
    /// `ClaimCreated(owner, claim)`: `owner` registered `claim`.
    ClaimCreated(AccountId, Vec<u8>),
    /// `ClaimRevoked(owner, claim)`: `owner` removed its entry for `claim`.
    ClaimRevoked(AccountId, Vec<u8>),
    /// `ClaimTransferred(from, to, claim)`: `from` handed `claim` to `to`.
    ClaimTransferred(AccountId, AccountId, Vec<u8>),
}

/// The mathematical shape of an event: the claim bytes as a sequence.
#[verifier::ext_equal]
pub enum EventView {
    ClaimCreated { owner: AccountId, claim: Seq<u8> },
    ClaimRevoked { owner: AccountId, claim: Seq<u8> },
    ClaimTransferred { from: AccountId, to: AccountId, claim: Seq<u8> },
}

impl View for Event {
    type V = EventView;

    open spec fn view(&self) -> EventView {
        match self {
            Event::ClaimCreated(owner, claim) => EventView::ClaimCreated {
                owner: *owner,
                claim: claim@,
            },
            Event::ClaimRevoked(owner, claim) => EventView::ClaimRevoked {
                owner: *owner,
                claim: claim@,
            },
            Event::ClaimTransferred(from, to, claim) => EventView::ClaimTransferred {
                from: *from,
                to: *to,
                claim: claim@,
            },
        }
    }
}

/// The view of a whole event log, oldest first.
pub open spec fn events_view(log: Seq<Event>) -> Seq<EventView> {
    log.map_values(|e: Event| e@)
}

/// Appending one event to the log appends its view to the log's view.
pub proof fn lemma_events_view_push(log: Seq<Event>, e: Event)
    ensures
        events_view(log.push(e)) == events_view(log).push(e@),
{
    assert(events_view(log.push(e)) =~= events_view(log).push(e@));
}

} // verus!

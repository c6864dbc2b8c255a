use vstd::prelude::*;
use crate::message::MessageId;

verus! {

/// A source of fresh message identifiers.
pub trait IdProvider: Sized {
    /// `next` is this source after handing out `id`.
    spec fn issues(&self, id: MessageId, next: Self) -> bool;

    fn new_random(&mut self) -> (r: MessageId)
        ensures
            old(self).issues(r, *final(self)),
    ;
}

/// Relies on `uuid::Uuid::new_v4` and `Uuid::as_u128`: a random version-4
/// UUID as a 128-bit integer. Nothing is promised of the value: it is random.
#[verifier::external_body]
fn random_uuid() -> (r: u128) {
    uuid::Uuid::new_v4().as_u128()
}

/// Random version-4 UUIDs.
#[derive(Debug, Clone, Copy)]
pub struct UuidProvider {}

impl UuidProvider {
    pub fn new() -> (r: UuidProvider) {
        UuidProvider {}
    }
}

impl IdProvider for UuidProvider {
    /// Any identifier may come.
    open spec fn issues(&self, id: MessageId, next: UuidProvider) -> bool {
        true
    }

    fn new_random(&mut self) -> (r: MessageId) {
        random_uuid()
    }
}

/// Deterministic identifiers 0, 1, 2, ... on successive calls.
#[derive(Debug, Clone, Copy)]
pub struct MockUuidProvider {
    pub counter: u128,
}

impl MockUuidProvider {
    pub fn new() -> (r: MockUuidProvider)
        ensures
            r.counter == 0,
    {
        MockUuidProvider { counter: 0 }
    }

    /// The current count, then one step on (the count stays at its maximum).
    pub fn next_id(&mut self) -> (r: MessageId)
        ensures
            r == old(self).counter,
            final(self).counter == if old(self).counter < u128::MAX {
                (old(self).counter + 1) as u128
            } else {
                old(self).counter
            },
    {
        let id = self.counter;
        if self.counter < u128::MAX {
            self.counter = self.counter + 1;
        }
        id
    }
}

impl IdProvider for MockUuidProvider {
    /// The current count, and one step on.
    open spec fn issues(&self, id: MessageId, next: MockUuidProvider) -> bool {
        &&& id == self.counter
        &&& next.counter == if self.counter < u128::MAX {
            (self.counter + 1) as u128
        } else {
            self.counter
        }
    }

    fn new_random(&mut self) -> (r: MessageId) {
        self.next_id()
    }
}

} // verus!

use vstd::prelude::*;
use crate::message::AccurateTimestamp;

verus! {

/// A source of creation times for envelopes.
pub trait TimeProvider: Sized {
    /// `next` is this clock after telling time `t`.
    spec fn tells(&self, t: AccurateTimestamp, next: Self) -> bool;

    fn now(&mut self) -> (r: AccurateTimestamp)
        ensures
            old(self).tells(r, *final(self)),
    ;
}

#[verifier::external_type_specification]
#[verifier::external_body]
pub struct ExSystemTime(std::time::SystemTime);

/// Relies on `std::time::SystemTime::now`: the time now. Nothing is promised
/// of it.
#[verifier::external_body]
fn wall_clock() -> (r: std::time::SystemTime) {
    std::time::SystemTime::now()
}

/// Relies on `SystemTime::duration_since` with `UNIX_EPOCH`: the time elapsed
/// since the Unix epoch, or `None` when `t` stands before it.
#[verifier::external_body]
fn since_unix_epoch(t: &std::time::SystemTime) -> (r: Option<std::time::Duration>) {
    t.duration_since(std::time::UNIX_EPOCH).ok()
}

/// Relies on `Duration::as_micros`: the whole microseconds of `d`.
#[verifier::external_body]
fn whole_micros(d: &std::time::Duration) -> (r: u128) {
    d.as_micros()
}

/// The wall clock.
#[derive(Debug, Clone, Copy)]
pub struct TimeProviderImpl {}

impl TimeProviderImpl {
    pub fn new() -> (r: TimeProviderImpl) {
        TimeProviderImpl {}
    }
}

impl TimeProvider for TimeProviderImpl {
    /// Any time may come: it is the wall clock.
    open spec fn tells(&self, t: AccurateTimestamp, next: TimeProviderImpl) -> bool {
        true
    }

    /// Microseconds since the Unix epoch; zero when the clock stands before it.
    fn now(&mut self) -> (r: AccurateTimestamp) {
        match since_unix_epoch(&wall_clock()) {
            Some(d) => whole_micros(&d),
            None => 0,
        }
    }
}

/// A deterministic clock that answers 0, 1, 2, ... on successive calls.
#[derive(Debug, Clone, Copy)]
pub struct MockTimeProvider {
    pub counter: u128,
}

impl MockTimeProvider {
    pub fn new() -> (r: MockTimeProvider)
        ensures
            r.counter == 0,
    {
        MockTimeProvider { counter: 0 }
    }

    /// The current count, then one step on (the count stays at its maximum).
    pub fn tick(&mut self) -> (r: u128)
        ensures
            r == old(self).counter,
            final(self).counter == if old(self).counter < u128::MAX {
                (old(self).counter + 1) as u128
            } else {
                old(self).counter
            },
    {
        let now = self.counter;
        if self.counter < u128::MAX {
            self.counter = self.counter + 1;
        }
        now
    }
}

impl TimeProvider for MockTimeProvider {
    /// The current count, and one step on.
    open spec fn tells(&self, t: AccurateTimestamp, next: MockTimeProvider) -> bool {
        &&& t == self.counter
        &&& next.counter == if self.counter < u128::MAX {
            (self.counter + 1) as u128
        } else {
            self.counter
        }
    }

    fn now(&mut self) -> (r: AccurateTimestamp) {
        self.tick()
    }
}

} // verus!

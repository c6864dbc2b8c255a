use vstd::prelude::*;
use crate::exchange::ExchangeError;
use crate::message::{Msg, MsgData};

verus! {

/// Why an actor could not handle a message.
#[derive(Debug, PartialEq, Eq, Structural, Clone, Copy)]
pub enum ActorError {
    /// The exchange collaborator refused or failed a request.
    Exchange(ExchangeError),
    /// A smoothed average fell outside the range of a price.
    AverageOutOfRange,
}

/// What an actor call returned, with its payloads as a sequence.
pub open spec fn result_view(r: Result<Vec<MsgData>, ActorError>) -> Result<Seq<MsgData>, ActorError> {
    match r {
        Ok(v) => Ok(v@),
        Err(e) => Err(e),
    }
}

/// None of the payloads is the shutdown sentinel.
pub open spec fn no_shutdown_payload(ps: Seq<MsgData>) -> bool {
    forall|k: int| 0 <= k < ps.len() ==> !(#[trigger] ps[k] is Shutdown)
}

/// A stateful message transformer: it reads one envelope and answers with
/// zero or more new payloads, which the stage around it wraps in envelopes.
pub trait Actor: Sized {
    /// `next` is this actor after handling `msg`, and `r` what it answered.
    /// An actor that states nothing of itself may answer anything.
    open spec fn reacts(&self, msg: Msg, next: Self, r: Result<Seq<MsgData>, ActorError>) -> bool {
        true
    }

    /// Handles one envelope. The shutdown sentinel never reaches an actor,
    /// and no actor answers with it.
    fn act(&mut self, msg: &Msg) -> (r: Result<Vec<MsgData>, ActorError>)
        requires
            !crate::message::is_shutdown(*msg),
        ensures
            old(self).reacts(*msg, *final(self), result_view(r)),
            r matches Ok(v) ==> no_shutdown_payload(v@),
    ;
}

/// Actors of type `A` answer every message with no payload and never fail.
pub open spec fn never_emits<A: Actor>() -> bool {
    forall|a: A, m: Msg, n: A, r: Result<Seq<MsgData>, ActorError>|
        #[trigger] a.reacts(m, n, r) ==> r == Ok::<Seq<MsgData>, ActorError>(Seq::<MsgData>::empty())
}

} // verus!

use vstd::prelude::*;
use crate::actor::{Actor, ActorError};
use crate::id::IdProvider;
use crate::message::{Msg, MsgData, MsgMetaData};
use crate::time::TimeProvider;

verus! {

broadcast use vstd::seq_lib::group_seq_properties;

/// One stage of a pipeline: an actor with its own id and time sources.
///
/// A stage forwards the shutdown sentinel verbatim. Every other envelope goes
/// to the actor; each payload it answers with is wrapped in a new envelope
/// that points back at the input and keeps the input's correlation. Unless the
/// stage is a filter, the input itself is emitted first. Once its actor has
/// failed, the stage emits nothing but the shutdown sentinel, so that
/// downstream stages still drain.
pub struct Processor<A, I, T> {
    pub actor: A,
    pub id_provider: I,
    pub time_provider: T,
    pub is_filter: bool,
    pub failure: Option<ActorError>,
}

/// The payloads of a sequence of envelopes.
pub open spec fn payloads(s: Seq<Msg>) -> Seq<MsgData> {
    s.map_values(|m: Msg| m.data)
}

/// How many copies of the input lead a stage's answer.
pub open spec fn passthrough_len(is_filter: bool) -> int {
    if is_filter {
        0
    } else {
        1
    }
}

/// `states` are the successive states of an id source from `first` to
/// `last`, handing out the ids of `minted` in order.
pub open spec fn id_trace<I: IdProvider>(states: Seq<I>, first: I, last: I, minted: Seq<Msg>) -> bool {
    &&& states.len() == minted.len() + 1
    &&& states[0] == first
    &&& states.last() == last
    &&& forall|k: int|
        0 <= k < minted.len() ==> #[trigger] states[k].issues(minted[k].metadata.id, states[k + 1])
}

/// `states` are the successive states of a clock from `first` to `last`,
/// telling the creation times of `minted` in order.
pub open spec fn time_trace<T: TimeProvider>(states: Seq<T>, first: T, last: T, minted: Seq<Msg>) -> bool {
    &&& states.len() == minted.len() + 1
    &&& states[0] == first
    &&& states.last() == last
    &&& forall|k: int|
        0 <= k < minted.len() ==> #[trigger] states[k].tells(minted[k].metadata.creation_time, states[k + 1])
}

/// Stage `before` turns input `e` into the envelopes `out` and becomes `after`.
/// Minted envelopes take their ids and creation times from successive calls
/// of the stage's id source and clock.
pub open spec fn processed<A: Actor, I: IdProvider, T: TimeProvider>(
    before: Processor<A, I, T>,
    e: Msg,
    after: Processor<A, I, T>,
    out: Seq<Msg>,
) -> bool {
    if crate::message::is_shutdown(e) {
        out == seq![e] && after == before
    } else if before.failure is Some {
        out == Seq::<Msg>::empty() && after == before
    } else {
        &&& after.is_filter == before.is_filter
        &&& match after.failure {
            Some(err) => out == Seq::<Msg>::empty() && before.actor.reacts(e, after.actor, Err(err))
                && after.id_provider == before.id_provider && after.time_provider
                == before.time_provider,
            None => {
                let off = passthrough_len(before.is_filter);
                &&& out.len() >= off
                &&& (!before.is_filter ==> out[0] == e)
                &&& forall|k: int|
                    off <= k < out.len() ==> crate::message::stamped_from(#[trigger] out[k], e, out[k].data)
                        && !crate::message::is_shutdown(out[k])
                &&& before.actor.reacts(e, after.actor, Ok(payloads(out.skip(off))))
                &&& exists|ids: Seq<I>|
                    #[trigger] id_trace(ids, before.id_provider, after.id_provider, out.skip(off))
                &&& exists|times: Seq<T>|
                    #[trigger] time_trace(times, before.time_provider, after.time_provider, out.skip(off))
            },
        }
    }
}

/// Every envelope of `out` is the input `e` itself or was minted from it.
pub open spec fn derived_from(out: Seq<Msg>, e: Msg) -> bool {
    forall|k: int|
        0 <= k < out.len() ==> #[trigger] out[k] == e || out[k].metadata.causation_id
            == e.metadata.id
}

/// Causal linkage: every envelope a stage emits for input `e` is `e` itself
/// or names `e` as its cause.
pub proof fn lemma_causal_linkage<A: Actor, I: IdProvider, T: TimeProvider>(
    before: Processor<A, I, T>,
    e: Msg,
    after: Processor<A, I, T>,
    out: Seq<Msg>,
)
    requires
        processed(before, e, after, out),
    ensures
        derived_from(out, e),
{
}

/// Correlation propagation: every envelope a stage emits for input `e`
/// carries the correlation id, time and price of `e`.
pub proof fn lemma_correlation_propagation<A: Actor, I: IdProvider, T: TimeProvider>(
    before: Processor<A, I, T>,
    e: Msg,
    after: Processor<A, I, T>,
    out: Seq<Msg>,
)
    requires
        processed(before, e, after, out),
    ensures
        forall|k: int| 0 <= k < out.len() ==> crate::message::same_correlation(#[trigger] out[k], e),
{
    assert forall|k: int| 0 <= k < out.len() implies crate::message::same_correlation(#[trigger] out[k], e) by {
        if out[k] != e {
            assert(crate::message::stamped_from(out[k], e, out[k].data));
        }
    }
}

/// Filter semantics: a stage that is not a filter and whose actor accepts an
/// input other than the sentinel emits that input first, and only envelopes
/// minted from it after it.
pub proof fn lemma_passthrough<A: Actor, I: IdProvider, T: TimeProvider>(
    before: Processor<A, I, T>,
    e: Msg,
    after: Processor<A, I, T>,
    out: Seq<Msg>,
)
    requires
        processed(before, e, after, out),
        !crate::message::is_shutdown(e),
        passes_through(before),
        after.failure is None,
    ensures
        out.len() >= 1,
        out[0] == e,
        forall|k: int| 1 <= k < out.len() ==> crate::message::stamped_from(#[trigger] out[k], e, out[k].data),
{
}

impl<A: Actor, I: IdProvider, T: TimeProvider> Processor<A, I, T> {
    /// A healthy stage that re-emits its inputs.
    pub fn new(actor: A, id_provider: I, time_provider: T) -> (r: Self)
        ensures
            r.actor == actor,
            r.id_provider == id_provider,
            r.time_provider == time_provider,
            !r.is_filter,
            r.failure is None,
    {
        Processor { actor, id_provider, time_provider, is_filter: false, failure: None }
    }

    /// Handles one input envelope and returns, in order, the envelopes to send on.
    pub fn process(&mut self, e: Msg) -> (out: Vec<Msg>)
        ensures
            processed(*old(self), e, *final(self), out@),
    {
        if let MsgData::Shutdown = &e.data {
            let out = vec![e];
            assert(out@ =~= seq![e]);
            return out;
        }
        if self.failure.is_some() {
            return Vec::new();
        }
        let ghost e0 = e;
        let meta = e.metadata;
        match self.actor.act(&e) {
            Err(err) => {
                self.failure = Some(err);
                Vec::new()
            },
            Ok(answer) => {
                let ghost ps = answer@;
                let ghost actor_after = self.actor;
                let mut answer = answer;
                let mut out: Vec<Msg> = Vec::new();
                if !self.is_filter {
                    out.push(e);
                }
                let ghost off = passthrough_len(self.is_filter);
                let ghost mut id_states: Seq<I> = seq![self.id_provider];
                let ghost mut time_states: Seq<T> = seq![self.time_provider];
                assert(self.id_provider == old(self).id_provider);
                while answer.len() > 0
                    invariant
                        id_trace(id_states, old(self).id_provider, self.id_provider, out@.skip(off)),
                        time_trace(time_states, old(self).time_provider, self.time_provider, out@.skip(off)),
                        out.len() >= off,
                        off == passthrough_len(self.is_filter),
                        self.is_filter == old(self).is_filter,
                        self.failure is None,
                        self.actor == actor_after,
                        crate::actor::no_shutdown_payload(ps),
                        answer.len() <= ps.len(),
                        answer@ == ps.skip(ps.len() - answer.len()),
                        out.len() == off + (ps.len() - answer.len()),
                        !self.is_filter ==> out[0] == e0,
                        meta == e0.metadata,
                        forall|k: int|
                            off <= k < out.len() ==> crate::message::stamped_from(#[trigger] out[k], e0, ps[k - off]),
                    decreases answer.len(),
                {
                    let ghost done = ps.len() - answer.len();
                    let ghost pending = answer@;
                    let p = answer.remove(0);
                    assert(p == pending[0]);
                    assert(answer@ =~= ps.skip(done + 1));
                    let ghost out_before = out@;
                    let id = self.id_provider.new_random();
                    let creation_time = self.time_provider.now();
                    proof {
                        id_states = id_states.push(self.id_provider);
                        time_states = time_states.push(self.time_provider);
                    }
                    out.push(
                        Msg {
                            data: p,
                            metadata: MsgMetaData {
                                id,
                                correlation_time: meta.correlation_time,
                                creation_time,
                                correlation_id: meta.correlation_id,
                                correlation_price: meta.correlation_price,
                                causation_id: meta.id,
                            },
                        },
                    );
                    assert(p == ps[done]);
                    assert(out@.skip(off) =~= out_before.skip(off).push(out@.last()));
                    assert(id_trace(id_states, old(self).id_provider, self.id_provider, out@.skip(off))) by {
                        assert forall|k: int| 0 <= k < out@.skip(off).len() implies #[trigger] id_states[k].issues(
                            out@.skip(off)[k].metadata.id,
                            id_states[k + 1],
                        ) by {
                            if k < out@.skip(off).len() - 1 {
                                assert(out@.skip(off)[k] == out_before.skip(off)[k]);
                            }
                        }
                    }
                    assert(time_trace(time_states, old(self).time_provider, self.time_provider, out@.skip(off))) by {
                        assert forall|k: int| 0 <= k < out@.skip(off).len() implies #[trigger] time_states[k].tells(
                            out@.skip(off)[k].metadata.creation_time,
                            time_states[k + 1],
                        ) by {
                            if k < out@.skip(off).len() - 1 {
                                assert(out@.skip(off)[k] == out_before.skip(off)[k]);
                            }
                        }
                    }
                }
                assert(payloads(out@.skip(off)) =~= ps);
                assert forall|k: int| off <= k < out.len() implies !crate::message::is_shutdown(#[trigger] out@[k]) by {
                    assert(ps[k - off] == out@[k].data);
                }
                out
            },
        }
    }
}

/// The stage is healthy and re-emits its inputs.
pub open spec fn passes_through<A, I, T>(p: Processor<A, I, T>) -> bool {
    !p.is_filter && p.failure is None
}

/// No envelope of `s` is the shutdown sentinel.
pub open spec fn shutdown_free(s: Seq<Msg>) -> bool {
    forall|k: int| 0 <= k < s.len() ==> !crate::message::is_shutdown(#[trigger] s[k])
}

/// A batch fit to answer the source envelope `e`: the sentinel alone for the
/// sentinel; otherwise envelopes that are not the sentinel and keep the
/// correlation of `e`.
pub open spec fn correlated_batch(batch: Seq<Msg>, e: Msg) -> bool {
    if crate::message::is_shutdown(e) {
        batch == seq![e]
    } else {
        shutdown_free(batch) && forall|k: int|
            0 <= k < batch.len() ==> crate::message::same_correlation(#[trigger] batch[k], e)
    }
}

/// Every stage of `stages` hands each input on alone: there are none, or
/// their actors never answer and every stage passes its inputs through.
pub open spec fn relays<A: Actor, I, T>(stages: Seq<Processor<A, I, T>>) -> bool {
    stages.len() == 0 || (crate::actor::never_emits::<A>() && forall|j: int|
        0 <= j < stages.len() ==> passes_through(#[trigger] stages[j]))
}

/// A chain reads exactly the first `n` envelopes of `s`: up to and including
/// the first shutdown sentinel, or all of them when there is none.
pub open spec fn reads(s: Seq<Msg>, n: int) -> bool {
    ||| n == s.len() && shutdown_free(s)
    ||| 0 < n <= s.len() && crate::message::is_shutdown(s[n - 1]) && shutdown_free(s.take(n - 1))
}

/// `states` are the successive states of one stage from `before` to `after`
/// while it handles the envelopes `ins` in order, and `pieces` what it emits
/// for each of them; `outs` is all of it, in order.
pub open spec fn stage_trace<A: Actor, I: IdProvider, T: TimeProvider>(
    states: Seq<Processor<A, I, T>>,
    pieces: Seq<Seq<Msg>>,
    before: Processor<A, I, T>,
    ins: Seq<Msg>,
    after: Processor<A, I, T>,
    outs: Seq<Msg>,
) -> bool {
    &&& states.len() == ins.len() + 1
    &&& pieces.len() == ins.len()
    &&& states[0] == before
    &&& states.last() == after
    &&& outs == pieces.flatten()
    &&& forall|i: int|
        0 <= i < ins.len() ==> processed(states[i], ins[i], states[i + 1], #[trigger] pieces[i])
}

/// Stage `before` handles `ins` one after the other, emits `outs` and
/// becomes `after`.
pub open spec fn stage_runs<A: Actor, I: IdProvider, T: TimeProvider>(
    before: Processor<A, I, T>,
    ins: Seq<Msg>,
    after: Processor<A, I, T>,
    outs: Seq<Msg>,
) -> bool {
    exists|states: Seq<Processor<A, I, T>>, pieces: Seq<Seq<Msg>>|
        #[trigger] stage_trace(states, pieces, before, ins, after, outs)
}

/// `mids[j]` is what enters stage `j` of the chain `before` when the source
/// envelope `e` is fed to it; each stage runs on it and becomes `after[j]`,
/// and the last of `mids` leaves the chain as `out`.
pub open spec fn chain_trace<A: Actor, I: IdProvider, T: TimeProvider>(
    mids: Seq<Seq<Msg>>,
    before: Seq<Processor<A, I, T>>,
    e: Msg,
    after: Seq<Processor<A, I, T>>,
    out: Seq<Msg>,
) -> bool {
    &&& mids.len() == before.len() + 1
    &&& after.len() == before.len()
    &&& mids[0] == seq![e]
    &&& mids.last() == out
    &&& forall|j: int|
        0 <= j < before.len() ==> stage_runs(before[j], mids[j], #[trigger] after[j], mids[j + 1])
}

/// The chain `before` answers the source envelope `e` with `out`, every stage
/// handling in order what the stage before it emitted, and becomes `after`.
pub open spec fn chain_runs<A: Actor, I: IdProvider, T: TimeProvider>(
    before: Seq<Processor<A, I, T>>,
    e: Msg,
    after: Seq<Processor<A, I, T>>,
    out: Seq<Msg>,
) -> bool {
    exists|mids: Seq<Seq<Msg>>| #[trigger] chain_trace(mids, before, e, after, out)
}

/// The chain handled the source stream `ins` one envelope after the other:
/// `batches[i]` is what it answered to `ins[i]`, `chains[i]` its stages
/// before that, and `out` is all the batches in order. The chain reads up to
/// and including the first shutdown sentinel.
pub open spec fn run_trace<A: Actor, I: IdProvider, T: TimeProvider>(
    batches: Seq<Seq<Msg>>,
    chains: Seq<Seq<Processor<A, I, T>>>,
    before: Seq<Processor<A, I, T>>,
    ins: Seq<Msg>,
    after: Seq<Processor<A, I, T>>,
    out: Seq<Msg>,
) -> bool {
    &&& out == batches.flatten()
    &&& reads(ins, batches.len() as int)
    &&& chains.len() == batches.len() + 1
    &&& chains[0] == before
    &&& chains.last() == after
    &&& forall|i: int|
        0 <= i < batches.len() ==> chain_runs(chains[i], ins[i], chains[i + 1], #[trigger] batches[i])
    &&& forall|i: int| 0 <= i < batches.len() ==> correlated_batch(#[trigger] batches[i], ins[i])
    &&& forwards(before) ==> forall|i: int|
        0 <= i < batches.len() ==> rooted_in(#[trigger] batches[i], ins[i])
}

/// No stage of `stages` is a filter: each re-emits its inputs.
pub open spec fn forwards<A, I, T>(stages: Seq<Processor<A, I, T>>) -> bool {
    forall|j: int| 0 <= j < stages.len() ==> !(#[trigger] stages[j]).is_filter
}

/// Every envelope of `batch` is `e` itself or names as its cause an envelope
/// that comes before it in `batch`.
pub open spec fn rooted_in(batch: Seq<Msg>, e: Msg) -> bool {
    forall|k: int|
        0 <= k < batch.len() ==> #[trigger] batch[k] == e || exists|j: int|
            0 <= j < k && batch[j].metadata.id == batch[k].metadata.causation_id
}

/// Causal order across a whole log: when each batch is rooted in its source
/// envelope, every envelope of the concatenated log is a source envelope or
/// names as its cause an envelope that comes before it in the log.
pub proof fn lemma_causes_precede(batches: Seq<Seq<Msg>>, inputs: Seq<Msg>)
    requires
        batches.len() <= inputs.len(),
        forall|i: int| 0 <= i < batches.len() ==> rooted_in(#[trigger] batches[i], inputs[i]),
        forall|i: int| 0 <= i < batches.len() ==> correlated_batch(#[trigger] batches[i], inputs[i]),
    ensures
        forall|k: int|
            0 <= k < batches.flatten().len() ==> (exists|i: int|
                0 <= i < inputs.len() && #[trigger] batches.flatten()[k] == inputs[i]) || exists|j: int|
                0 <= j < k && batches.flatten()[j].metadata.id == batches.flatten()[k].metadata.causation_id
                    && batches.flatten()[j].metadata.correlation_id
                    == batches.flatten()[k].metadata.correlation_id,
    decreases batches.len(),
{
    if batches.len() > 0 {
        let init = batches.drop_last();
        let last = batches.last();
        let n = batches.len() - 1;
        lemma_causes_precede(init, inputs);
        init.lemma_flatten_push(last);
        assert(init.push(last) =~= batches);
        let f = batches.flatten();
        let g = init.flatten();
        assert(f =~= g + last);
        assert(rooted_in(batches[n], inputs[n]));
        assert(correlated_batch(last, inputs[n]));
        assert forall|k: int| 0 <= k < f.len() implies (exists|i: int|
            0 <= i < inputs.len() && #[trigger] f[k] == inputs[i]) || exists|j: int|
            0 <= j < k && f[j].metadata.id == f[k].metadata.causation_id
                && f[j].metadata.correlation_id == f[k].metadata.correlation_id by {
            if k < g.len() {
                assert(f[k] == g[k]);
                if !(exists|i: int| 0 <= i < inputs.len() && #[trigger] g[k] == inputs[i]) {
                    let j = choose|j: int| 0 <= j < k && g[j].metadata.id == g[k].metadata.causation_id
                        && g[j].metadata.correlation_id == g[k].metadata.correlation_id;
                    assert(f[j] == g[j]);
                }
            } else {
                let t = k - g.len();
                assert(f[k] == last[t]);
                if last[t] == inputs[n] {
                    assert(f[k] == inputs[n]);
                } else {
                    let j = choose|j: int| 0 <= j < t && last[j].metadata.id == last[t].metadata.causation_id;
                    assert(f[g.len() + j] == last[j]);
                    if crate::message::is_shutdown(inputs[n]) {
                        assert(last == seq![inputs[n]]);
                    } else {
                        assert(crate::message::same_correlation(last[j], inputs[n]));
                        assert(crate::message::same_correlation(last[t], inputs[n]));
                    }
                }
            }
        }
    }
}

/// A linear chain of stages. Each stage has its own copies of the id and time
/// sources that the chain was built with.
pub struct ActorChain<A, I, T> {
    pub processors: Vec<Processor<A, I, T>>,
    pub time_provider: T,
    pub id_provider: I,
}

impl<A: Actor, I: IdProvider + Clone, T: TimeProvider + Clone> ActorChain<A, I, T> {
    /// A chain without stages.
    pub fn new(time_provider: T, id_provider: I) -> (r: Self)
        ensures
            r.processors@.len() == 0,
            r.time_provider == time_provider,
            r.id_provider == id_provider,
    {
        ActorChain { processors: Vec::new(), time_provider, id_provider }
    }

    /// Appends a stage around `actor`, fed by the current tail of the chain.
    pub fn add(self, actor: A) -> (r: Self)
        ensures
            r.processors@.len() == self.processors@.len() + 1,
            r.processors@.take(self.processors@.len() as int) == self.processors@,
            r.processors@.last().actor == actor,
            passes_through(r.processors@.last()),
            vstd::pervasive::cloned(self.id_provider, r.processors@.last().id_provider),
            vstd::pervasive::cloned(self.time_provider, r.processors@.last().time_provider),
            r.time_provider == self.time_provider,
            r.id_provider == self.id_provider,
    {
        let mut chain = self;
        let p = Processor::new(actor, chain.id_provider.clone(), chain.time_provider.clone());
        chain.processors.push(p);
        assert(chain.processors@.take(self.processors@.len() as int) =~= self.processors@);
        chain
    }

    /// Feeds one source envelope through every stage in order and returns
    /// what leaves the tail of the chain.
    pub fn push(&mut self, e: Msg) -> (out: Vec<Msg>)
        ensures
            final(self).processors@.len() == old(self).processors@.len(),
            correlated_batch(out@, e),
            relays(old(self).processors@) ==> out@ == seq![e] && relays(final(self).processors@),
            forall|j: int|
                0 <= j < old(self).processors@.len() ==> (#[trigger] final(self).processors@[j]).is_filter
                    == old(self).processors@[j].is_filter,
            forwards(old(self).processors@) ==> rooted_in(out@, e),
            chain_runs(old(self).processors@, e, final(self).processors@, out@),
    {
        let ghost stages = self.processors@;
        let ghost mut mids: Seq<Seq<Msg>> = seq![seq![e]];
        let ghost fwd = forwards(stages);
        let ghost quiet = crate::actor::never_emits::<A>() && (forall|j: int|
            0 <= j < stages.len() ==> passes_through(#[trigger] stages[j]));
        let mut rest: Vec<Processor<A, I, T>> = Vec::new();
        std::mem::swap(&mut rest, &mut self.processors);
        let mut done: Vec<Processor<A, I, T>> = Vec::new();
        let mut batch: Vec<Msg> = vec![e];
        assert(batch@ =~= seq![e]);
        while rest.len() > 0
            invariant
                quiet == (crate::actor::never_emits::<A>() && (forall|j: int|
                    0 <= j < stages.len() ==> passes_through(#[trigger] stages[j]))),
                done.len() + rest.len() == stages.len(),
                rest@ == stages.skip(done.len() as int),
                correlated_batch(batch@, e),
                done.len() == 0 ==> batch@ == seq![e],
                quiet ==> batch@ == seq![e] && forall|j: int|
                    0 <= j < done.len() ==> passes_through(#[trigger] done@[j]),
                fwd == forwards(stages),
                forall|j: int| 0 <= j < done.len() ==> (#[trigger] done@[j]).is_filter == stages[j].is_filter,
                fwd ==> rooted_in(batch@, e),
                mids.len() == done.len() + 1,
                mids[0] == seq![e],
                mids.last() == batch@,
                forall|j: int|
                    0 <= j < done.len() ==> stage_runs(stages[j], mids[j], #[trigger] done@[j], mids[j + 1]),
            decreases rest.len(),
        {
            let ghost k = done.len() as int;
            let ghost pending0 = rest@;
            let mut p = rest.remove(0);
            assert(p == stages[k]);
            assert(rest@ =~= stages.skip(k + 1));
            let mut next: Vec<Msg> = Vec::new();
            let ghost incoming = batch@;
            proof {
                if quiet {
                    assert(passes_through(stages[k]));
                }
                if fwd {
                    assert(!stages[k].is_filter);
                }
            }
            let ghost mut placed_at: Seq<int> = Seq::empty();
            let ghost mut states: Seq<Processor<A, I, T>> = seq![p];
            let ghost mut pieces: Seq<Seq<Msg>> = Seq::empty();
            assert(incoming.take(0) =~= Seq::<Msg>::empty());
            assert(pieces.flatten() =~= next@);
            while batch.len() > 0
                invariant
                    0 <= k < stages.len(),
                    stage_trace(states, pieces, stages[k], incoming.take(incoming.len() - batch.len()), p, next@),
                    p.is_filter == stages[k].is_filter,
                    fwd ==> !p.is_filter,
                    fwd ==> rooted_in(incoming, e),
                    fwd && !crate::message::is_shutdown(e) ==> rooted_in(next@, e),
                    fwd && !crate::message::is_shutdown(e) && p.failure is None ==> placed_at.len() == incoming.len()
                        - batch.len() && forall|i: int|
                        0 <= i < placed_at.len() ==> 0 <= #[trigger] placed_at[i] < next@.len()
                            && next@[placed_at[i]] == incoming[i],
                    quiet ==> crate::actor::never_emits::<A>(),
                    batch.len() <= incoming.len(),
                    batch@ == incoming.skip(incoming.len() - batch.len()),
                    correlated_batch(incoming, e),
                    !crate::message::is_shutdown(e) ==> correlated_batch(next@, e),
                    crate::message::is_shutdown(e) ==> (batch.len() == 1 && next@ == Seq::<Msg>::empty()
                        && p == stages[k]) || (batch.len() == 0 && next@ == seq![e] && p
                        == stages[k]),
                    quiet ==> incoming == seq![e] && passes_through(p) && ((batch.len() == 1
                        && next@ == Seq::<Msg>::empty()) || (batch.len() == 0 && next@ == seq![e])),
                decreases batch.len(),
            {
                let ghost consumed = incoming.len() - batch.len();
                let ghost pending = batch@;
                let m = batch.remove(0);
                assert(m == incoming[consumed]);
                assert(batch@ =~= incoming.skip(consumed + 1));
                let ghost before = p;
                let ghost before_next = next@;
                let mut o = p.process(m);
                let ghost emitted = o@;
                next.append(&mut o);
                assert(next@ =~= before_next + emitted);
                proof {
                    let ghost old_states = states;
                    let ghost old_pieces = pieces;
                    pieces.lemma_flatten_push(emitted);
                    states = states.push(p);
                    pieces = pieces.push(emitted);
                    assert(incoming.take(consumed + 1) =~= incoming.take(consumed).push(m));
                    assert forall|i: int| 0 <= i < consumed + 1 implies processed(
                        states[i],
                        incoming.take(consumed + 1)[i],
                        states[i + 1],
                        #[trigger] pieces[i],
                    ) by {
                        if i < consumed {
                            assert(pieces[i] == old_pieces[i]);
                            assert(states[i] == old_states[i]);
                            assert(states[i + 1] == old_states[i + 1]);
                            assert(incoming.take(consumed + 1)[i] == incoming.take(consumed)[i]);
                        } else {
                            assert(states[i] == before);
                        }
                    }
                    assert(stage_trace(states, pieces, stages[k], incoming.take(consumed + 1), p, next@));
                }
                proof {
                    if !crate::message::is_shutdown(e) {
                        assert(!crate::message::is_shutdown(m) && crate::message::same_correlation(m, e));
                        assert forall|k2: int| 0 <= k2 < next@.len() implies !crate::message::is_shutdown(
                            #[trigger] next@[k2],
                        ) && crate::message::same_correlation(next@[k2], e) by {
                            if k2 >= before_next.len() {
                                let i = k2 - before_next.len();
                                if before.failure is None && p.failure is None && i >= passthrough_len(
                                    before.is_filter,
                                ) {
                                    assert(crate::message::stamped_from(emitted[i], m, emitted[i].data));
                                }
                            }
                        }
                    }
                    if quiet && !crate::message::is_shutdown(e) {
                        assert(m == e);
                        if p.failure is Some {
                            assert(before.actor.reacts(e, p.actor, Err(p.failure.unwrap())));
                        } else {
                            assert(before.actor.reacts(e, p.actor, Ok(payloads(emitted.skip(1)))));
                            assert(payloads(emitted.skip(1)).len() == 0);
                            assert(emitted =~= seq![e]);
                        }
                    }
                    if crate::message::is_shutdown(e) {
                        assert(emitted =~= seq![e]);
                    }
                    if fwd && !crate::message::is_shutdown(e) {
                        assert(!crate::message::is_shutdown(m));
                        if before.failure is None && p.failure is None {
                            let len0 = before_next.len() as int;
                            assert(emitted[0] == m);
                            assert forall|i: int| 0 <= i < placed_at.len() implies 0 <= #[trigger] placed_at[i]
                                < next@.len() && next@[placed_at[i]] == incoming[i] by {
                                assert(next@[placed_at[i]] == before_next[placed_at[i]]);
                            }
                            assert forall|t: int| 0 <= t < next@.len() implies #[trigger] next@[t] == e || exists|j: int|
                                0 <= j < t && next@[j].metadata.id == next@[t].metadata.causation_id by {
                                if t < len0 {
                                    assert(next@[t] == before_next[t]);
                                    if next@[t] != e {
                                        let j = choose|j: int| 0 <= j < t && before_next[j].metadata.id
                                            == before_next[t].metadata.causation_id;
                                        assert(next@[j] == before_next[j]);
                                    }
                                } else if t == len0 {
                                    assert(next@[t] == m);
                                    if m != e {
                                        assert(incoming[consumed] == m);
                                        let j = choose|j: int| 0 <= j < consumed && incoming[j].metadata.id
                                            == incoming[consumed].metadata.causation_id;
                                        assert(next@[placed_at[j]] == incoming[j]);
                                    }
                                } else {
                                    assert(next@[t] == emitted[t - len0]);
                                    assert(crate::message::stamped_from(emitted[t - len0], m, emitted[t - len0].data));
                                    assert(next@[len0] == m);
                                }
                            }
                            placed_at = placed_at.push(len0);
                        } else {
                            assert(emitted.len() == 0);
                            assert(next@ =~= before_next);
                        }
                    }
                }
            }
            let ghost done_before = done@;
            proof {
                assert(incoming.take(incoming.len() as int) =~= incoming);
                assert(stage_runs(stages[k], incoming, p, next@));
            }
            let ghost mids_before = mids;
            proof {
                mids = mids.push(next@);
            }
            done.push(p);
            proof {
                assert forall|j: int|
                    0 <= j < done.len() implies stage_runs(stages[j], mids[j], #[trigger] done@[j], mids[j + 1]) by {
                    if j < k {
                        assert(done@[j] == done_before[j]);
                        assert(mids[j] == mids_before[j] && mids[j + 1] == mids_before[j + 1]);
                    } else {
                        assert(mids[j] == incoming);
                    }
                }
                assert forall|j: int| 0 <= j < done.len() implies (#[trigger] done@[j]).is_filter == stages[j].is_filter by {
                    if j < k {
                        assert(done@[j] == done_before[j]);
                    }
                }
                if fwd && crate::message::is_shutdown(e) {
                    assert(next@ =~= seq![e]);
                }
                if quiet {
                    assert forall|j: int| 0 <= j < done.len() implies passes_through(
                        #[trigger] done@[j],
                    ) by {
                        if j < k {
                            assert(done@[j] == done_before[j]);
                        }
                    }
                }
            }
            batch = next;
        }
        std::mem::swap(&mut done, &mut self.processors);
        proof {
            if stages.len() == 0 {
                assert(done@.len() == 0);
            }
            assert(chain_trace(mids, stages, e, self.processors@, batch@));
        }
        batch
    }

    /// Feeds a source stream through the chain, envelope by envelope, up to
    /// and including the first shutdown sentinel, and returns what leaves the
    /// tail of the chain, in order.
    pub fn run(&mut self, inputs: Vec<Msg>) -> (out: Vec<Msg>)
        ensures
            final(self).processors@.len() == old(self).processors@.len(),
            exists|batches: Seq<Seq<Msg>>, chains: Seq<Seq<Processor<A, I, T>>>|
                #[trigger] run_trace(batches, chains, old(self).processors@, inputs@, final(self).processors@, out@),
            forall|j: int|
                0 <= j < inputs@.len() && crate::message::is_shutdown(#[trigger] inputs@[j]) && shutdown_free(
                    inputs@.take(j),
                ) ==> out@.len() > 0 && crate::message::is_shutdown(out@.last()) && shutdown_free(
                    out@.drop_last(),
                ),
            shutdown_free(inputs@) ==> shutdown_free(out@),
            relays(old(self).processors@) ==> forall|n: int| #[trigger]
                reads(inputs@, n) ==> out@ == inputs@.take(n),
    {
        let ghost all = inputs@;
        let ghost initial = self.processors@;
        let mut inputs = inputs;
        let total = inputs.len();
        assert(all.len() == total);
        let mut out: Vec<Msg> = Vec::new();
        let ghost mut batches: Seq<Seq<Msg>> = Seq::empty();
        let ghost mut chains: Seq<Seq<Processor<A, I, T>>> = seq![initial];
        let mut stopped = false;
        let mut n: usize = 0;
        while inputs.len() > 0 && !stopped
            invariant
                n <= all.len(),
                all.len() <= usize::MAX,
                inputs@ == all.skip(n as int),
                batches.len() == n,
                out@ == batches.flatten(),
                forall|i: int| 0 <= i < n ==> correlated_batch(#[trigger] batches[i], all[i]),
                chains.len() == n + 1,
                chains[0] == initial,
                chains.last() == self.processors@,
                forall|i: int| 0 <= i < n ==> chain_runs(chains[i], all[i], chains[i + 1], #[trigger] batches[i]),
                forwards(initial) ==> forwards(self.processors@) && forall|i: int|
                    0 <= i < n ==> rooted_in(#[trigger] batches[i], all[i]),
                stopped ==> n > 0 && crate::message::is_shutdown(all[n - 1]) && shutdown_free(all.take(n - 1)),
                !stopped ==> shutdown_free(all.take(n as int)),
                !stopped ==> shutdown_free(out@),
                stopped ==> out@.len() > 0 && crate::message::is_shutdown(out@.last()) && shutdown_free(
                    out@.drop_last(),
                ),
                self.processors@.len() == initial.len(),
                relays(initial) ==> relays(self.processors@) && out@ == all.take(n as int),
            decreases inputs.len(),
        {
            let ghost pending = inputs@;
            let e = inputs.remove(0);
            assert(e == all[n as int]);
            assert(inputs@ =~= all.skip(n + 1));
            let sentinel = if let MsgData::Shutdown = &e.data {
                true
            } else {
                false
            };
            let ghost before_out = out@;
            let ghost stages_before = self.processors@;
            let mut b = self.push(e);
            proof {
                if forwards(initial) {
                    assert forall|j: int| 0 <= j < self.processors@.len() implies !(#[trigger] self.processors@[j]).is_filter by {
                        assert(self.processors@[j].is_filter == stages_before[j].is_filter);
                    }
                }
            }
            let ghost batch = b@;
            out.append(&mut b);
            proof {
                let ghost old_batches = batches;
                let ghost old_chains = chains;
                batches.lemma_flatten_push(batch);
                batches = batches.push(batch);
                chains = chains.push(self.processors@);
                assert forall|i: int| 0 <= i < n + 1 implies chain_runs(chains[i], all[i], chains[i + 1], #[trigger] batches[i]) by {
                    if i < n {
                        assert(batches[i] == old_batches[i]);
                        assert(chains[i] == old_chains[i] && chains[i + 1] == old_chains[i + 1]);
                    } else {
                        assert(chains[i] == stages_before);
                    }
                }
                assert(out@ =~= before_out + batch);
                assert(all.take(n + 1) =~= all.take(n as int).push(e));
                if sentinel {
                    assert(batch =~= seq![e]);
                    assert(out@.drop_last() =~= before_out);
                } else {
                    assert forall|k: int| 0 <= k < out@.len() implies !crate::message::is_shutdown(
                        #[trigger] out@[k],
                    ) by {
                        if k >= before_out.len() {
                            assert(out@[k] == batch[k - before_out.len()]);
                        }
                    }
                }
                if relays(initial) {
                    assert(out@ =~= all.take(n + 1));
                }
            }
            if sentinel {
                stopped = true;
            }
            n = n + 1;
        }
        proof {
            assert(reads(all, n as int)) by {
                if !stopped {
                    assert(all.take(n as int) =~= all);
                }
            }
            assert(run_trace(batches, chains, initial, all, self.processors@, out@));
            assert forall|j: int|
                0 <= j < all.len() && crate::message::is_shutdown(#[trigger] all[j]) && shutdown_free(
                    all.take(j),
                ) implies out@.len() > 0 && crate::message::is_shutdown(out@.last()) && shutdown_free(
                out@.drop_last(),
            ) by {
                if !stopped {
                    assert(all.take(n as int)[j] == all[j]);
                } else if j < n - 1 {
                    assert(all.take(n - 1)[j] == all[j]);
                } else if j > n - 1 {
                    assert(all.take(j)[n - 1] == all[n - 1]);
                }
            }
            assert forall|m: int| #[trigger] reads(all, m) && relays(initial) implies out@
                == all.take(m) by {
                if m != n {
                    if m < n {
                        if stopped {
                            assert(all.take(n - 1)[m - 1] == all[m - 1]);
                        } else {
                            assert(all.take(n as int)[m - 1] == all[m - 1]);
                        }
                    } else {
                        if stopped {
                            assert(all.take(m - 1)[n - 1] == all[n - 1]);
                        } else {
                            assert(all[m - 1] == all.take(m - 1 + 1)[m - 1]);
                        }
                    }
                }
            }
        }
        out
    }
}

} // verus!

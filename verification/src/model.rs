//! A model of the pool between its two endpoints, and what holds of every
//! interleaving of its workers.
//!
//! The inbound endpoint is modelled as a queue that hands each batch to one
//! receive only. While it is empty it answers a receive with a timeout if it
//! is open and with a disconnection if it is closed; it fails in no other
//! way. The outbound endpoint takes a send or fails it; a tagged batch whose
//! send failed is lost. Each worker moves as `worker::step` says. Nothing
//! here runs: these are statements about the transition function, proved for
//! every schedule.

use crate::driver::{
    flags_every_packet, lemma_verified_keeps_packets, packets_of, Batch, VerifiedBatch,
};
use crate::worker::{answers, Action, Event, WorkerState};
use vstd::multiset::{lemma_multiset_empty_len, Multiset};
use vstd::prelude::*;
use vstd::seq_lib::{to_multiset_build, to_multiset_contains, to_multiset_len, to_multiset_remove};

verus! {

/// A worker as the pool sees it.
pub struct WorkerView<P> {
    /// Its state.
    pub state: WorkerState,
    /// The action that its last step asked for and that is still due.
    pub pending: Action<P>,
}

/// A pool with its endpoints.
pub struct PoolView<P> {
    /// Every batch that was ever submitted, in the order of submission.
    pub submitted: Seq<Batch<P>>,
    /// The batches that wait in the inbound endpoint, oldest first.
    pub inbound: Seq<Batch<P>>,
    /// Whether the producing side of the inbound endpoint is closed.
    pub closed: bool,
    /// The workers.
    pub workers: Seq<WorkerView<P>>,
    /// The tagged batches that went out, in the order of their sends.
    pub outbound: Seq<VerifiedBatch<P>>,
    /// The tagged batches whose send failed.
    pub lost: Seq<VerifiedBatch<P>>,
}

/// A pool of `workers` workers that has seen no batch yet.
pub open spec fn start<P>(workers: nat) -> PoolView<P> {
    PoolView {
        submitted: Seq::empty(),
        inbound: Seq::empty(),
        closed: false,
        workers: Seq::new(
            workers,
            |i: int| WorkerView { state: WorkerState::Waiting, pending: Action::Receive },
        ),
        outbound: Seq::empty(),
        lost: Seq::empty(),
    }
}

/// The producer submits `batch`.
pub open spec fn submits<P>(pre: PoolView<P>, post: PoolView<P>, batch: Batch<P>) -> bool {
    &&& !pre.closed
    &&& post.submitted == pre.submitted.push(batch)
    &&& post.inbound == pre.inbound.push(batch)
    &&& post.closed == pre.closed
    &&& post.workers == pre.workers
    &&& post.outbound == pre.outbound
    &&& post.lost == pre.lost
}

/// The producer closes its side of the inbound endpoint.
pub open spec fn closes<P>(pre: PoolView<P>, post: PoolView<P>) -> bool {
    &&& !pre.closed
    &&& post.closed
    &&& post.submitted == pre.submitted
    &&& post.inbound == pre.inbound
    &&& post.workers == pre.workers
    &&& post.outbound == pre.outbound
    &&& post.lost == pre.lost
}

/// Worker `w` takes one step on `event`; the other workers stay as they are.
pub open spec fn steps_on<P, F: Fn(&Batch<P>) -> Vec<bool>>(
    engine: &F,
    pre: PoolView<P>,
    post: PoolView<P>,
    w: int,
    event: Event<P>,
) -> bool {
    &&& pre.workers[w].state.awaits(event)
    &&& post.workers.len() == pre.workers.len()
    &&& forall|j: int| 0 <= j < pre.workers.len() && j != w ==> post.workers[j] == pre.workers[j]
    &&& post.workers[w].state == pre.workers[w].state.next(event)
    &&& answers(engine, event, post.workers[w].pending)
}

/// Worker `w` carries out its pending action on the endpoints and takes a
/// step on the event that this brings.
pub open spec fn worker_moves<P, F: Fn(&Batch<P>) -> Vec<bool>>(
    engine: &F,
    pre: PoolView<P>,
    post: PoolView<P>,
    w: int,
) -> bool {
    &&& 0 <= w < pre.workers.len()
    &&& post.submitted == pre.submitted
    &&& post.closed == pre.closed
    &&& match pre.workers[w].pending {
        Action::Receive => {
            &&& post.outbound == pre.outbound
            &&& post.lost == pre.lost
            &&& if pre.inbound.len() > 0 {
                &&& steps_on(engine, pre, post, w, Event::Received(pre.inbound[0]))
                &&& post.inbound == pre.inbound.drop_first()
            } else if pre.closed {
                &&& steps_on(engine, pre, post, w, Event::Disconnected)
                &&& post.inbound == pre.inbound
            } else {
                &&& steps_on(engine, pre, post, w, Event::TimedOut)
                &&& post.inbound == pre.inbound
            }
        },
        Action::Send(out) => {
            &&& post.inbound == pre.inbound
            &&& {
                ||| {
                    &&& steps_on(engine, pre, post, w, Event::Sent)
                    &&& post.outbound == pre.outbound.push(out)
                    &&& post.lost == pre.lost
                }
                ||| {
                    &&& steps_on(engine, pre, post, w, Event::SendFailed)
                    &&& post.outbound == pre.outbound
                    &&& post.lost == pre.lost.push(out)
                }
            }
        },
        Action::Stop => false,
    }
}

/// One move of the pool: by the producer or by one of the workers.
pub open spec fn pool_next<P, F: Fn(&Batch<P>) -> Vec<bool>>(
    engine: &F,
    pre: PoolView<P>,
    post: PoolView<P>,
) -> bool {
    ||| exists|batch: Batch<P>| submits(pre, post, batch)
    ||| closes(pre, post)
    ||| exists|w: int| worker_moves(engine, pre, post, w)
}

/// A run: a sequence of pool states in which each follows from the one before
/// it by one move.
pub open spec fn is_run<P, F: Fn(&Batch<P>) -> Vec<bool>>(
    engine: &F,
    run: Seq<PoolView<P>>,
) -> bool {
    &&& run.len() > 0
    &&& forall|i: int| 0 <= i < run.len() - 1 ==> pool_next(engine, #[trigger] run[i], run[i + 1])
}

/// The packets of each batch, batch by batch.
pub open spec fn batch_packets<P>(batches: Seq<Batch<P>>) -> Seq<Seq<P>> {
    Seq::new(batches.len(), |i: int| batches[i]@)
}

/// The packets of each tagged batch, batch by batch.
pub open spec fn tagged_packets<P>(outbound: Seq<VerifiedBatch<P>>) -> Seq<Seq<P>> {
    Seq::new(outbound.len(), |i: int| packets_of(outbound[i]@))
}

/// The packets of each batch, as a multiset of packet sequences.
pub open spec fn contents<P>(batches: Seq<Batch<P>>) -> Multiset<Seq<P>> {
    batch_packets(batches).to_multiset()
}

/// The packets of each tagged batch, as a multiset of packet sequences.
pub open spec fn delivered<P>(outbound: Seq<VerifiedBatch<P>>) -> Multiset<Seq<P>> {
    tagged_packets(outbound).to_multiset()
}

/// The packets that a worker has in hand: those of the tagged batch whose
/// send is due, if there is one.
pub open spec fn held<P>(worker: WorkerView<P>) -> Multiset<Seq<P>> {
    match worker.pending {
        Action::Send(out) => Multiset::singleton(packets_of(out@)),
        _ => Multiset::empty(),
    }
}

/// The packets that the workers have in hand.
pub open spec fn in_flight<P>(workers: Seq<WorkerView<P>>) -> Multiset<Seq<P>>
    decreases workers.len(),
{
    if workers.len() == 0 {
        Multiset::empty()
    } else {
        in_flight(workers.drop_last()).add(held(workers.last()))
    }
}

/// The batches that the pool holds or has passed on, wherever they are: in
/// the inbound endpoint, in the hands of a worker, in the outbound endpoint,
/// or lost in a failed send.
pub open spec fn whereabouts<P>(pool: PoolView<P>) -> Multiset<Seq<P>> {
    contents(pool.inbound).add(in_flight(pool.workers)).add(delivered(pool.outbound)).add(
        delivered(pool.lost),
    )
}

/// The pending action of a worker is the one that belongs to its state.
pub open spec fn consistent<P>(worker: WorkerView<P>) -> bool {
    match worker.state {
        WorkerState::Waiting => worker.pending is Receive,
        WorkerState::Processing => worker.pending is Send,
        WorkerState::Stopped => worker.pending is Stop,
    }
}

/// The invariant of the pool. Every batch that was submitted is in exactly
/// one place, with its packets as they were submitted. No worker has stopped
/// while the inbound endpoint was open or held a batch.
pub open spec fn conserved<P>(pool: PoolView<P>) -> bool {
    &&& forall|i: int| 0 <= i < pool.workers.len() ==> consistent(#[trigger] pool.workers[i])
    &&& forall|i: int|
        0 <= i < pool.workers.len() && (#[trigger] pool.workers[i]).state is Stopped
            ==> pool.closed && pool.inbound.len() == 0
    &&& whereabouts(pool) == contents(pool.submitted)
}

/// Whether every worker of the pool has stopped.
pub open spec fn all_stopped<P>(pool: PoolView<P>) -> bool {
    forall|i: int| 0 <= i < pool.workers.len() ==> (#[trigger] pool.workers[i]).state is Stopped
}

/// The number of steps that a worker is away from `Stopped` when there is no
/// batch for it to receive.
pub open spec fn weight(state: WorkerState) -> nat {
    match state {
        WorkerState::Waiting => 1,
        WorkerState::Processing => 2,
        WorkerState::Stopped => 0,
    }
}

/// The sum of the workers' weights.
pub open spec fn load<P>(workers: Seq<WorkerView<P>>) -> nat
    decreases workers.len(),
{
    if workers.len() == 0 {
        0
    } else {
        load(workers.drop_last()) + weight(workers.last().state)
    }
}

/// The number of worker moves that a closed pool is away from rest: two for
/// each batch in the inbound endpoint, and the weight of each worker.
pub open spec fn remaining<P>(pool: PoolView<P>) -> nat {
    2 * pool.inbound.len() + load(pool.workers)
}

proof fn lemma_in_flight_update<P>(workers: Seq<WorkerView<P>>, w: int, worker: WorkerView<P>)
    requires
        0 <= w < workers.len(),
    ensures
        in_flight(workers.update(w, worker)).add(held(workers[w])) == in_flight(workers).add(
            held(worker),
        ),
    decreases workers.len(),
{
    let updated = workers.update(w, worker);
    let rest = workers.drop_last();
    if w == workers.len() - 1 {
        assert(updated.drop_last() == rest);
    } else {
        assert(updated.drop_last() == rest.update(w, worker));
        lemma_in_flight_update(rest, w, worker);
        assert forall|v: Seq<P>|
            in_flight(rest.update(w, worker)).count(v) + held(rest[w]).count(v) == in_flight(
                rest,
            ).count(v) + held(worker).count(v) by {
            assert(in_flight(rest.update(w, worker)).add(held(rest[w])).count(v) == in_flight(
                rest,
            ).add(held(worker)).count(v));
        }
    }
}

proof fn lemma_in_flight_none<P>(workers: Seq<WorkerView<P>>)
    requires
        forall|i: int| 0 <= i < workers.len() ==> !((#[trigger] workers[i]).pending is Send),
    ensures
        in_flight(workers) == Multiset::<Seq<P>>::empty(),
    decreases workers.len(),
{
    if workers.len() > 0 {
        lemma_in_flight_none(workers.drop_last());
    }
}

proof fn lemma_load_update<P>(workers: Seq<WorkerView<P>>, w: int, worker: WorkerView<P>)
    requires
        0 <= w < workers.len(),
    ensures
        load(workers.update(w, worker)) + weight(workers[w].state) == load(workers) + weight(
            worker.state,
        ),
    decreases workers.len(),
{
    let updated = workers.update(w, worker);
    if w == workers.len() - 1 {
        assert(updated.drop_last() == workers.drop_last());
    } else {
        assert(updated.drop_last() == workers.drop_last().update(w, worker));
        lemma_load_update(workers.drop_last(), w, worker);
    }
}

proof fn lemma_load_zero<P>(workers: Seq<WorkerView<P>>)
    ensures
        load(workers) == 0 <==> forall|i: int|
            0 <= i < workers.len() ==> (#[trigger] workers[i]).state is Stopped,
    decreases workers.len(),
{
    if workers.len() > 0 {
        let rest = workers.drop_last();
        lemma_load_zero(rest);
        assert(forall|i: int| 0 <= i < rest.len() ==> rest[i] == workers[i]);
    }
}

proof fn lemma_contents_none<P>()
    ensures
        contents(Seq::<Batch<P>>::empty()) == Multiset::<Seq<P>>::empty(),
        delivered(Seq::<VerifiedBatch<P>>::empty()) == Multiset::<Seq<P>>::empty(),
{
    assert(batch_packets(Seq::<Batch<P>>::empty()) =~= Seq::empty());
    assert(tagged_packets(Seq::<VerifiedBatch<P>>::empty()) =~= Seq::empty());
    to_multiset_len(Seq::<Seq<P>>::empty());
    lemma_multiset_empty_len(Seq::<Seq<P>>::empty().to_multiset());
}

proof fn lemma_contents_push<P>(batches: Seq<Batch<P>>, batch: Batch<P>)
    ensures
        contents(batches.push(batch)) == contents(batches).insert(batch@),
{
    assert(batch_packets(batches.push(batch)) =~= batch_packets(batches).push(batch@));
    to_multiset_build(batch_packets(batches), batch@);
}

proof fn lemma_contents_drop_first<P>(batches: Seq<Batch<P>>)
    requires
        batches.len() > 0,
    ensures
        contents(batches) == contents(batches.drop_first()).insert(batches[0]@),
{
    let queued = batch_packets(batches);
    assert(batch_packets(batches.drop_first()) =~= queued.remove(0));
    to_multiset_remove(queued, 0);
    assert(queued.to_multiset().count(queued[0]) > 0) by {
        to_multiset_contains(queued, queued[0]);
    }
}

proof fn lemma_delivered_push<P>(outbound: Seq<VerifiedBatch<P>>, out: VerifiedBatch<P>)
    ensures
        delivered(outbound.push(out)) == delivered(outbound).insert(packets_of(out@)),
{
    assert(tagged_packets(outbound.push(out)) =~= tagged_packets(outbound).push(
        packets_of(out@),
    ));
    to_multiset_build(tagged_packets(outbound), packets_of(out@));
}

proof fn lemma_run_shorter<P, F: Fn(&Batch<P>) -> Vec<bool>>(engine: &F, run: Seq<PoolView<P>>)
    requires
        is_run(engine, run),
        run.len() > 1,
    ensures
        is_run(engine, run.drop_last()),
        run.drop_last()[0] == run[0],
        pool_next(engine, run.drop_last().last(), run.last()),
{
    let shorter = run.drop_last();
    assert forall|i: int| 0 <= i < shorter.len() - 1 implies pool_next(
        engine,
        #[trigger] shorter[i],
        shorter[i + 1],
    ) by {
        assert(shorter[i] == run[i] && shorter[i + 1] == run[i + 1]);
    }
}

proof fn lemma_run_keeps_workers<P, F: Fn(&Batch<P>) -> Vec<bool>>(
    engine: &F,
    run: Seq<PoolView<P>>,
)
    requires
        is_run(engine, run),
    ensures
        run.last().workers.len() == run[0].workers.len(),
    decreases run.len(),
{
    if run.len() > 1 {
        lemma_run_shorter(engine, run);
        lemma_run_keeps_workers(engine, run.drop_last());
    }
}

/// A pool that has seen no batch holds the invariant.
pub proof fn lemma_start_conserved<P>(workers: nat)
    ensures
        conserved(start::<P>(workers)),
{
    let pool = start::<P>(workers);
    lemma_in_flight_none(pool.workers);
    lemma_contents_none::<P>();
    assert(whereabouts(pool) =~= contents(pool.submitted));
}

/// Every move of the pool keeps the invariant, whichever worker makes it,
/// given an engine that answers with a flag for every packet.
pub proof fn lemma_next_conserved<P, F: Fn(&Batch<P>) -> Vec<bool>>(
    engine: &F,
    pre: PoolView<P>,
    post: PoolView<P>,
)
    requires
        forall|batch: Batch<P>| #[trigger] flags_every_packet(engine, batch),
        conserved(pre),
        pool_next(engine, pre, post),
    ensures
        conserved(post),
{
    if exists|batch: Batch<P>| submits(pre, post, batch) {
        let batch = choose|batch: Batch<P>| submits(pre, post, batch);
        lemma_contents_push(pre.inbound, batch);
        lemma_contents_push(pre.submitted, batch);
        assert(whereabouts(post) =~= whereabouts(pre).insert(batch@));
    } else if closes(pre, post) {
    } else {
        let w = choose|w: int| worker_moves(engine, pre, post, w);
        let old_worker = pre.workers[w];
        let new_worker = post.workers[w];
        assert(post.workers =~= pre.workers.update(w, new_worker));
        lemma_in_flight_update(pre.workers, w, new_worker);
        assert forall|v: Seq<P>|
            #[trigger] in_flight(post.workers).count(v) + held(old_worker).count(v) == in_flight(
                pre.workers,
            ).count(v) + held(new_worker).count(v) by {
            assert(in_flight(post.workers).add(held(old_worker)).count(v) == in_flight(
                pre.workers,
            ).add(held(new_worker)).count(v));
        }
        match old_worker.pending {
            Action::Receive => {
                if pre.inbound.len() > 0 {
                    let batch = pre.inbound[0];
                    let out = new_worker.pending->Send_0;
                    lemma_verified_keeps_packets(engine, batch, out@);
                    lemma_contents_drop_first(pre.inbound);
                }
            },
            Action::Send(out) => {
                if post.lost == pre.lost {
                    lemma_delivered_push(pre.outbound, out);
                } else {
                    lemma_delivered_push(pre.lost, out);
                }
            },
            Action::Stop => {},
        }
        assert(whereabouts(post) =~= whereabouts(pre));
    }
}

/// A run from a pool that holds the invariant ends in one that holds it.
pub proof fn lemma_run_conserved<P, F: Fn(&Batch<P>) -> Vec<bool>>(
    engine: &F,
    run: Seq<PoolView<P>>,
)
    requires
        forall|batch: Batch<P>| #[trigger] flags_every_packet(engine, batch),
        is_run(engine, run),
        conserved(run[0]),
    ensures
        conserved(run.last()),
    decreases run.len(),
{
    if run.len() > 1 {
        lemma_run_shorter(engine, run);
        lemma_run_conserved(engine, run.drop_last());
        lemma_next_conserved(engine, run.drop_last().last(), run.last());
    }
}

/// Whatever the interleaving of the workers and however many there are: in
/// every run of a fresh pool, each batch that was submitted is at every
/// moment in one place only. Once all workers have stopped, each of them has
/// been sent, with its packets as they were submitted: every batch has one
/// tagged batch in the outbound endpoint, but for those whose send failed;
/// where no send failed, the outbound endpoint holds as many tagged batches as
/// batches were submitted. This needs an engine that answers with a flag for
/// every packet, and at least one worker.
pub proof fn every_batch_is_delivered_once<P, F: Fn(&Batch<P>) -> Vec<bool>>(
    engine: &F,
    workers: nat,
    run: Seq<PoolView<P>>,
)
    requires
        forall|batch: Batch<P>| #[trigger] flags_every_packet(engine, batch),
        workers >= 1,
        is_run(engine, run),
        run[0] == start::<P>(workers),
    ensures
        conserved(run.last()),
        all_stopped(run.last()) ==> delivered(run.last().outbound).add(
            delivered(run.last().lost),
        ) == contents(run.last().submitted),
        all_stopped(run.last()) && run.last().lost.len() == 0 ==> {
            &&& delivered(run.last().outbound) == contents(run.last().submitted)
            &&& run.last().outbound.len() == run.last().submitted.len()
        },
{
    lemma_start_conserved::<P>(workers);
    lemma_run_conserved(engine, run);
    lemma_run_keeps_workers(engine, run);
    let end = run.last();
    if all_stopped(end) {
        lemma_in_flight_none(end.workers);
        lemma_contents_none::<P>();
        assert(end.inbound =~= Seq::empty());
        if end.lost.len() == 0 {
            assert(end.lost =~= Seq::empty());
            to_multiset_len(tagged_packets(end.outbound));
            to_multiset_len(batch_packets(end.submitted));
        }
    }
}

/// In a closed pool only workers move, and each of their moves brings the
/// pool one move nearer to rest.
pub proof fn lemma_closed_pool_winds_down<P, F: Fn(&Batch<P>) -> Vec<bool>>(
    engine: &F,
    pre: PoolView<P>,
    post: PoolView<P>,
)
    requires
        pre.closed,
        conserved(pre),
        pool_next(engine, pre, post),
    ensures
        post.closed,
        remaining(post) + 1 == remaining(pre),
{
    let w = choose|w: int| worker_moves(engine, pre, post, w);
    assert(post.workers =~= pre.workers.update(w, post.workers[w]));
    lemma_load_update(pre.workers, w, post.workers[w]);
}

/// Shutdown is bounded. Once the inbound endpoint is closed, every move of a
/// run takes one from `remaining`, so no run makes more moves than `remaining`
/// says at the closure: two for each batch that is still queued, two for each
/// worker that has a send due and one for each that waits. A closed pool with
/// nothing remaining has an empty inbound endpoint and all its workers
/// stopped, whether sends failed on the way or not.
pub proof fn shutdown_is_bounded<P, F: Fn(&Batch<P>) -> Vec<bool>>(
    engine: &F,
    run: Seq<PoolView<P>>,
)
    requires
        forall|batch: Batch<P>| #[trigger] flags_every_packet(engine, batch),
        is_run(engine, run),
        conserved(run[0]),
        run[0].closed,
    ensures
        run.last().closed,
        remaining(run.last()) + (run.len() - 1) == remaining(run[0]),
        run.len() - 1 <= remaining(run[0]),
        remaining(run.last()) == 0 <==> run.last().inbound.len() == 0 && all_stopped(run.last()),
    decreases run.len(),
{
    lemma_load_zero(run.last().workers);
    if run.len() > 1 {
        lemma_run_shorter(engine, run);
        shutdown_is_bounded(engine, run.drop_last());
        lemma_run_conserved(engine, run.drop_last());
        lemma_closed_pool_winds_down(engine, run.drop_last().last(), run.last());
    }
}

/// While a pool is not at rest, one of its workers has not stopped: there is
/// always a worker left to make the next move.
pub proof fn lemma_unrested_pool_has_live_worker<P>(pool: PoolView<P>)
    requires
        conserved(pool),
        pool.workers.len() >= 1,
        remaining(pool) > 0,
    ensures
        exists|w: int|
            0 <= w < pool.workers.len() && !((#[trigger] pool.workers[w]).state is Stopped),
{
    lemma_load_zero(pool.workers);
}

} // verus!

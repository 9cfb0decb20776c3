//! The worker pool: how many workers there are, and what a join over them
//! reports.

use vstd::prelude::*;

verus! {

/// The number of workers in a pool. It is fixed and not taken from the
/// machine: verification is bound by the processor, so more workers verify
/// more batches at a time only while cores are free, and four leave cores to
/// the stages around this one.
pub const WORKER_COUNT: usize = 4;

/// How a worker ended.
#[derive(Clone, Copy, PartialEq, Eq, Debug, Structural)]
pub enum WorkerExit {
    /// It reached `Stopped` and left its loop.
    Stopped,
    /// It ended abnormally.
    Faulted,
}

/// A join that met a worker which had ended abnormally.
#[derive(Clone, Copy, PartialEq, Eq, Debug, Structural)]
pub struct JoinError {
    /// Position of that worker in the pool.
    pub worker: usize,
}

/// Whether none of the workers ended abnormally.
pub open spec fn none_faulted(exits: Seq<WorkerExit>) -> bool {
    forall|i: int| 0 <= i < exits.len() ==> exits[i] is Stopped
}

/// Whether `worker` is the first that ended abnormally.
pub open spec fn first_fault(exits: Seq<WorkerExit>, worker: int) -> bool {
    &&& 0 <= worker < exits.len()
    &&& exits[worker] is Faulted
    &&& none_faulted(exits.take(worker))
}

/// What a join reports of workers that were joined in pool order: success
/// when all of them stopped, else the first that ended abnormally.
pub fn join_outcome(exits: &Vec<WorkerExit>) -> (r: Result<(), JoinError>)
    ensures
        r is Ok <==> none_faulted(exits@),
        r matches Err(e) ==> first_fault(exits@, e.worker as int),
{
    let mut i: usize = 0;
    while i < exits.len()
        invariant
            i <= exits.len(),
            none_faulted(exits@.take(i as int)),
        decreases exits.len() - i,
    {
        match exits[i] {
            WorkerExit::Faulted => {
                return Err(JoinError { worker: i });
            },
            WorkerExit::Stopped => {},
        }
        i += 1;
    }
    assert(exits@.take(i as int) == exits@);
    Ok(())
}

} // verus!

//! The two events that a worker makes observable for every batch it
//! processes. They are diagnostic: nothing in the stage decides by them.

use rand::Rng;
use vstd::prelude::*;

verus! {

/// Run identifiers are drawn from `0..RUN_ID_LIMIT`.
pub const RUN_ID_LIMIT: u32 = 100;

/// Emitted when the verification of a batch starts.
#[derive(Clone, Copy, PartialEq, Eq, Debug)]
pub struct RunStart {
    /// Length of the batch.
    pub batch_len: usize,
    /// Identifier of this run, to match the two events of one batch.
    pub run_id: u32,
}

/// Emitted when the tagged batch has gone out.
#[derive(Clone, Copy, PartialEq, Eq, Debug)]
pub struct RunDone {
    /// Length of the batch.
    pub batch_len: usize,
    /// Identifier of this run, as in its `RunStart`.
    pub run_id: u32,
    /// Number of packets that the inbound endpoint counted in the batch.
    pub packets: usize,
    /// Wall-clock time that the run took, in milliseconds.
    pub elapsed_ms: u64,
}

/// `rand::rngs::ThreadRng`, the handle to the generator of the current
/// thread. It is carried from `thread_rng` to `gen_range` and never looked
/// into.
#[verifier::external_type_specification]
#[verifier::external_body]
pub struct ExThreadRng(rand::rngs::ThreadRng);

/// `rand::thread_rng` hands out the generator of the current thread, which
/// the operating system seeds on first use; it panics if the system gives no
/// seed. Nothing is claimed of the generator.
pub assume_specification[ rand::thread_rng ]() -> (rng: rand::rngs::ThreadRng);

/// `rand::Rng::gen_range` on `u32`: a value that lies in `low..high`, `low`
/// included and `high` not. It panics unless `low < high`. Which value comes
/// is up to the generator, so two calls may differ.
#[verifier::external_body]
fn gen_range(rng: &mut rand::rngs::ThreadRng, low: u32, high: u32) -> (id: u32)
    requires
        low < high,
    ensures
        low <= id < high,
{
    rng.gen_range(low, high)
}

impl RunStart {
    /// The start event of a run on a batch of `batch_len` entries under the
    /// identifier `run_id`.
    pub fn new(batch_len: usize, run_id: u32) -> (start: RunStart)
        ensures
            start.batch_len == batch_len,
            start.run_id == run_id,
    {
        RunStart { batch_len, run_id }
    }

    /// The completion event of this run.
    pub fn done(&self, packets: usize, elapsed_ms: u64) -> (done: RunDone)
        ensures
            done.batch_len == self.batch_len,
            done.run_id == self.run_id,
            done.packets == packets,
            done.elapsed_ms == elapsed_ms,
    {
        RunDone { batch_len: self.batch_len, run_id: self.run_id, packets, elapsed_ms }
    }
}

/// Opens a run on a batch of `batch_len` entries and draws its identifier.
pub fn start_run(batch_len: usize) -> (start: RunStart)
    ensures
        start.batch_len == batch_len,
        start.run_id < RUN_ID_LIMIT,
{
    let mut rng = rand::thread_rng();
    let run_id: u32 = gen_range(&mut rng, 0, RUN_ID_LIMIT);
    RunStart::new(batch_len, run_id)
}

} // verus!

//! The worker loop as a state machine: the caller performs the receive and the
//! send, and `step` decides what comes next.

use crate::driver::{verified_by, verify_batch, Batch, VerifiedBatch};
use vstd::prelude::*;

verus! {

/// Where a worker stands between two steps.
#[derive(Clone, Copy, PartialEq, Eq, Debug, Structural)]
pub enum WorkerState {
    /// A bounded receive on the inbound endpoint is due.
    Waiting,
    /// A batch was verified and its send is due.
    Processing,
    /// The inbound endpoint is closed for good; the worker has ended.
    Stopped,
}

/// What the caller reports back after carrying out an action.
#[derive(PartialEq, Eq, Debug)]
pub enum Event<P> {
    /// The receive yielded a batch.
    Received(Batch<P>),
    /// The bounded wait ran out with nothing to receive.
    TimedOut,
    /// The producing side of the inbound endpoint is gone.
    Disconnected,
    /// The receive failed for another reason.
    ReceiveFailed,
    /// The tagged batch went out on the outbound endpoint.
    Sent,
    /// The send failed.
    SendFailed,
}

/// What the caller is to do next.
#[derive(PartialEq, Eq, Debug)]
pub enum Action<P> {
    /// Pull one batch from the inbound endpoint, waiting a bounded time.
    Receive,
    /// Push this tagged batch to the outbound endpoint.
    Send(VerifiedBatch<P>),
    /// Leave the loop.
    Stop,
}

impl<P> Event<P> {
    /// A fault is an event that is worth an error line in the log: a failed
    /// receive or a failed send. A timeout and a disconnection are expected.
    pub open spec fn fault(self) -> bool {
        self is ReceiveFailed || self is SendFailed
    }

    /// Whether this event is to be logged as an error.
    pub fn is_fault(&self) -> (r: bool)
        ensures
            r == self.fault(),
    {
        match self {
            Event::ReceiveFailed => true,
            Event::SendFailed => true,
            _ => false,
        }
    }
}

impl WorkerState {
    /// The events that can follow the action that this state has pending.
    pub open spec fn awaits<P>(self, event: Event<P>) -> bool {
        match self {
            WorkerState::Waiting => event is Received || event is TimedOut || event is Disconnected
                || event is ReceiveFailed,
            WorkerState::Processing => event is Sent || event is SendFailed,
            WorkerState::Stopped => false,
        }
    }

    /// Whether `event` can follow the action that this state has pending.
    pub fn accepts<P>(&self, event: &Event<P>) -> (r: bool)
        ensures
            r == self.awaits(*event),
    {
        match self {
            WorkerState::Waiting => match event {
                Event::Sent => false,
                Event::SendFailed => false,
                _ => true,
            },
            WorkerState::Processing => match event {
                Event::Sent => true,
                Event::SendFailed => true,
                _ => false,
            },
            WorkerState::Stopped => false,
        }
    }

    /// The state that follows this one on `event`.
    pub open spec fn next<P>(self, event: Event<P>) -> WorkerState {
        match self {
            WorkerState::Waiting => match event {
                Event::Received(_) => WorkerState::Processing,
                Event::Disconnected => WorkerState::Stopped,
                _ => WorkerState::Waiting,
            },
            WorkerState::Processing => WorkerState::Waiting,
            WorkerState::Stopped => WorkerState::Stopped,
        }
    }
}

/// The action that answers an event: a received batch is verified by `engine`
/// and its tagged form is sent, a disconnection ends the loop, and everything
/// else leads back to a receive.
pub open spec fn answers<P, F: Fn(&Batch<P>) -> Vec<bool>>(
    engine: &F,
    event: Event<P>,
    action: Action<P>,
) -> bool {
    match event {
        Event::Received(batch) => action matches Action::Send(out) && verified_by(
            engine,
            batch,
            out@,
        ),
        Event::Disconnected => action is Stop,
        _ => action is Receive,
    }
}

/// One step of a worker: from the state and the event that the last action
/// brought to the next state and the next action. A batch that was received
/// is verified here, with one call of `engine`, and comes back tagged in the
/// action that sends it; an empty batch is treated like any other. The event
/// has to be one that the state awaits, which `accepts` tests.
pub fn step<P, F>(state: WorkerState, event: Event<P>, engine: &F) -> (r: (
    WorkerState,
    Action<P>,
)) where
    F: Fn(&Batch<P>) -> Vec<bool>,

    requires
        state.awaits(event),
        event matches Event::Received(batch) ==> engine.requires((&batch,)),
    ensures
        r.0 == state.next(event),
        answers(engine, event, r.1),
{
    match state {
        WorkerState::Waiting => match event {
            Event::Received(batch) => {
                let out = verify_batch(batch, engine);
                (WorkerState::Processing, Action::Send(out))
            },
            Event::Disconnected => (WorkerState::Stopped, Action::Stop),
            _ => (WorkerState::Waiting, Action::Receive),
        },
        WorkerState::Processing => (WorkerState::Waiting, Action::Receive),
        WorkerState::Stopped => (WorkerState::Stopped, Action::Stop),
    }
}

/// A worker stops on a disconnection and on nothing else, and only then is
/// its next action to leave the loop.
pub proof fn lemma_stops_on_disconnection_only<P, F: Fn(&Batch<P>) -> Vec<bool>>(
    engine: &F,
    state: WorkerState,
    event: Event<P>,
    action: Action<P>,
)
    requires
        state.awaits(event),
        answers(engine, event, action),
    ensures
        state.next(event) is Stopped <==> event is Disconnected,
        action is Stop <==> event is Disconnected,
        action is Send <==> event is Received,
        event is TimedOut || event.fault() ==> state.next(event) is Waiting && action is Receive,
{
}

/// Once the inbound endpoint reports its disconnection to every receive, a
/// worker that waits stops at its next step, and a worker that has a send due
/// stops at the step after that send, whether the send succeeds or fails.
pub proof fn lemma_disconnection_stops_worker<P>(
    state: WorkerState,
    send_outcome: Event<P>,
    receive_outcome: Event<P>,
)
    requires
        !(state is Stopped),
        send_outcome is Sent || send_outcome is SendFailed,
        receive_outcome is Disconnected,
    ensures
        state is Waiting ==> state.next(receive_outcome) is Stopped,
        state is Processing ==> state.awaits(send_outcome) && state.next(send_outcome).awaits(
            receive_outcome,
        ) && state.next(send_outcome).next(receive_outcome) is Stopped,
{
}

} // verus!

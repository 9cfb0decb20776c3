use sigverify_stage::driver::{Batch, VerifiedBatch};
use sigverify_stage::pool::WORKER_COUNT;
use sigverify_stage::worker::{step, Action, Event, WorkerState};
use std::sync::mpsc::{channel, Receiver, RecvTimeoutError, Sender};
use std::sync::Arc;
use std::time::Duration;

type SharedPacket = Arc<Vec<u8>>;

fn parity_engine(batch: &Batch<SharedPacket>) -> Vec<bool> {
    batch.iter().map(|p| p.first().map_or(false, |b| b % 2 == 0)).collect()
}

fn batch_of(len: usize, seed: u8) -> Batch<SharedPacket> {
    (0..len).map(|i| Arc::new(vec![seed.wrapping_add(i as u8), seed])).collect()
}

fn same_packets(out: &VerifiedBatch<SharedPacket>, batch: &Batch<SharedPacket>) -> bool {
    out.len() == batch.len() && out.iter().zip(batch).all(|(e, p)| Arc::ptr_eq(&e.0, p))
}

/// One worker between two channels. Its turns are taken on the test's thread.
struct Worker {
    state: WorkerState,
    action: Action<SharedPacket>,
    faults: usize,
}

fn workers() -> Vec<Worker> {
    (0..WORKER_COUNT)
        .map(|_| Worker { state: WorkerState::Waiting, action: Action::Receive, faults: 0 })
        .collect()
}

fn turn(
    worker: &mut Worker,
    inbound: &Receiver<Batch<SharedPacket>>,
    outbound: &Sender<VerifiedBatch<SharedPacket>>,
) {
    let event = match std::mem::replace(&mut worker.action, Action::Stop) {
        Action::Receive => match inbound.recv_timeout(Duration::from_millis(1)) {
            Ok(batch) => Event::Received(batch),
            Err(RecvTimeoutError::Timeout) => Event::TimedOut,
            Err(RecvTimeoutError::Disconnected) => Event::Disconnected,
        },
        Action::Send(out) => match outbound.send(out) {
            Ok(()) => Event::Sent,
            Err(_) => Event::SendFailed,
        },
        Action::Stop => return,
    };
    if event.is_fault() {
        worker.faults += 1;
    }
    assert!(worker.state.accepts(&event));
    let (state, action) = step(worker.state, event, &parity_engine);
    worker.state = state;
    worker.action = action;
}

fn run_to_rest(
    pool: &mut Vec<Worker>,
    inbound: &Receiver<Batch<SharedPacket>>,
    outbound: &Sender<VerifiedBatch<SharedPacket>>,
) {
    let mut turns = 0usize;
    while pool.iter().any(|w| w.state != WorkerState::Stopped) {
        let n = pool.len();
        turn(&mut pool[turns % n], inbound, outbound);
        turns += 1;
        assert!(turns < 10_000);
    }
}

#[test]
fn two_batches_through_channels() {
    let (producer, inbound) = channel();
    let (outbound, verified) = channel();
    let mut pool = workers();
    let three = batch_of(3, 10);
    let five = batch_of(5, 77);
    producer.send(three.clone()).unwrap();
    producer.send(five.clone()).unwrap();
    drop(producer);
    run_to_rest(&mut pool, &inbound, &outbound);
    drop(outbound);
    let out: Vec<VerifiedBatch<SharedPacket>> = verified.iter().collect();
    assert_eq!(out.len(), 2);
    let mut sizes: Vec<usize> = out.iter().map(|o| o.len()).collect();
    sizes.sort();
    assert_eq!(sizes, vec![3, 5]);
    assert_eq!(out.iter().filter(|o| same_packets(o, &three)).count(), 1);
    assert_eq!(out.iter().filter(|o| same_packets(o, &five)).count(), 1);
    for o in out.iter() {
        for entry in o.iter() {
            assert_eq!(entry.1, entry.0[0] % 2 == 0);
        }
    }
    assert!(pool.iter().all(|w| w.faults == 0));
}

#[test]
fn idle_pool_waits_while_the_producer_lives() {
    let (producer, inbound) = channel::<Batch<SharedPacket>>();
    let (outbound, verified) = channel();
    let mut pool = workers();
    for i in 0..3 * WORKER_COUNT {
        turn(&mut pool[i % WORKER_COUNT], &inbound, &outbound);
    }
    assert!(pool.iter().all(|w| w.state == WorkerState::Waiting));
    drop(producer);
    run_to_rest(&mut pool, &inbound, &outbound);
    drop(outbound);
    assert_eq!(verified.iter().count(), 0);
}

#[test]
fn batches_queued_at_the_closure_still_come_out() {
    let (producer, inbound) = channel();
    let (outbound, verified) = channel();
    let mut pool = workers();
    let batches: Vec<Batch<SharedPacket>> = (0..11usize).map(|i| batch_of(i % 4 + 1, i as u8)).collect();
    for batch in batches.iter() {
        producer.send(batch.clone()).unwrap();
    }
    turn(&mut pool[2], &inbound, &outbound);
    assert_eq!(pool[2].state, WorkerState::Processing);
    drop(producer);
    run_to_rest(&mut pool, &inbound, &outbound);
    drop(outbound);
    let out: Vec<VerifiedBatch<SharedPacket>> = verified.iter().collect();
    assert_eq!(out.len(), batches.len());
    for batch in batches.iter() {
        assert_eq!(out.iter().filter(|o| same_packets(o, batch)).count(), 1);
    }
}

#[test]
fn worker_goes_on_when_the_consumer_has_left() {
    let (producer, inbound) = channel();
    let (outbound, verified) = channel();
    let mut pool = workers();
    drop(verified);
    for i in 0..6u8 {
        producer.send(batch_of(2, i)).unwrap();
    }
    drop(producer);
    run_to_rest(&mut pool, &inbound, &outbound);
    let faults: usize = pool.iter().map(|w| w.faults).sum();
    assert_eq!(faults, 6);
}

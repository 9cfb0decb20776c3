//! Signature-verification stage of a transaction pipeline.
//!
//! The stage takes batches of packets from an inbound endpoint, has each batch
//! verified in one call of a verification engine, pairs the flags that come
//! back with the packets, position by position, and hands the tagged batch to
//! an outbound endpoint. A fixed pool of workers does this side by side.
//!
//! This library holds the decisions of the stage and their proofs; it owns no
//! thread and no channel. `driver` verifies and tags one batch. `worker` is
//! the loop of one worker as a state machine, which the caller drives by
//! reporting what its receives and sends brought. `pool` holds the size of the
//! pool and the outcome of a join. `telemetry` holds the two events that a
//! worker makes observable for each batch. `model` states and proves what
//! holds of a whole pool under every interleaving of its workers.

pub mod driver;
pub mod model;
pub mod pool;
pub mod telemetry;
pub mod worker;

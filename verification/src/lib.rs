//! Bookkeeping of a sharded proving run.
//!
//! A program is executed checkpoint by checkpoint. Workers trace the checkpoints in parallel, number
//! the shards that come of them in the order of the checkpoints, and send them in batches to a
//! prover. The library decides what each of these threads does next; it starts none of them.

pub mod batches;
pub mod checkpoints;
pub mod coordinator;
pub mod error;
pub mod execution_report;
pub mod numbering_laws;
pub mod outcome;
pub mod report;
pub mod schedule;
pub mod schedule_invariant;
pub mod schedule_laws;
pub mod schedule_options;
pub mod schedule_progress;
pub mod schedule_report;
pub mod setup;
pub mod shards;
pub mod turns;
pub mod values;
pub mod worker;
pub mod worker_laws;

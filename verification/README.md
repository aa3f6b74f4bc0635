# zkm_prove

The bookkeeping of a sharded proving run, verified with Verus.

A program is executed checkpoint by checkpoint. Workers trace the checkpoints in parallel, number
the shards that come of them in the order of the checkpoints, and send them in batches to a prover.

- `src/checkpoints.rs`: the steps of the checkpoint generator.
- `src/worker.rs`: the steps of a trace generation worker, over `src/coordinator.rs`, which the
  workers share, and `src/turns.rs`.
- `src/shards.rs`, `src/values.rs`: the public values that the shards get.
- `src/batches.rs`: cutting shards into batches.
- `src/setup.rs`, `src/report.rs`, `src/outcome.rs`, `src/error.rs`: what is asked for and what comes
  out.
- `src/execution_report.rs`: counts of what was executed, and adding them up.
- `src/schedule.rs`: all ways in which the threads of a run can interleave.
- `src/schedule_invariant.rs`, `src/schedule_laws.rs`, `src/schedule_progress.rs`,
  `src/schedule_report.rs`, `src/schedule_options.rs`: what holds of all of them. Proof, public
  values and report are the same for every schedule, number of workers, channel capacity and batch
  size. The cycles are those of all checkpoints, added up, if all reports count the same kinds of
  opcodes and system calls. Nothing is held back at the end, if the last split leaves nothing. Nothing
  deadlocks, if there is at least one worker. Every run ends.
- `src/numbering_laws.rs`: the shards of a run are numbered without gaps, and what each says of its
  execution and of the addresses, if what happens to records besides the numbering changes their
  events only.
- `app/`: the threads, channels and temporary files around it, for any executor and STARK machine
  that implement the `Backend` trait.

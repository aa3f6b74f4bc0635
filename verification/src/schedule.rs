//! Every way in which the threads of a run can interleave, and why they all end in the same proof.
use vstd::prelude::*;

use crate::batches::{batched, paired};
use crate::coordinator::{initial_coordinator, may_send, may_stamp, CoordinatorView};
use crate::execution_report::ReportView;
use crate::shards::{
    closing_shards, execution_stamped, values_after_closing, values_after_execution,
};
use crate::values::{Layout, PublicValues, Record};
use crate::worker::{worker_step, ActionView, EventView, WorkerView};

verus! {

/// A batch: records and their traces.
pub type Batch<L, P, T> = (Seq<Record<L, P>>, Seq<T>);

/// What a run computes, apart from the order in which its threads get to it. `P` are the events of
/// a record, `T` is the trace of one, `X` are events that are held back until they fill a shard, and
/// `F` is the proof of one shard.
#[verifier::reject_recursive_types(L)]
#[verifier::reject_recursive_types(P)]
#[verifier::reject_recursive_types(T)]
#[verifier::reject_recursive_types(X)]
pub struct Run<L: Layout, P, T, X, F> {
    /// How many checkpoints the program reaches. The last of them ends it.
    pub checkpoints: nat,
    /// How many workers generate traces.
    pub workers: nat,
    /// How many checkpoints can wait in the channel to the workers, besides the one that is being
    /// handed over.
    pub checkpoints_channel_capacity: nat,
    /// How many batches can wait in the channel to the prover, besides the one that is being handed
    /// over.
    pub records_and_traces_channel_capacity: nat,
    /// How many shards there are in a batch.
    pub batch_size: nat,
    /// Whether the shapes of records are fixed.
    pub fix_shapes: bool,
    /// The public values that the numbering starts from.
    pub values: PublicValues<L>,
    /// The events that are held back at the start.
    pub held: X,
    /// The records that the checkpoint with a given number is traced to.
    pub trace: spec_fn(nat) -> Seq<Record<L, P>>,
    /// How many kinds of opcodes a report counts.
    pub opcodes: nat,
    /// How many kinds of system calls a report counts.
    pub syscalls: nat,
    /// The report of the execution up to the checkpoint with a given number, from the one before.
    pub report: spec_fn(nat) -> ReportView,
    /// The public values that the program has written when it has ended.
    pub stream: Seq<u8>,
    /// Takes the events to be held back out of records.
    pub defer: spec_fn(X, Seq<Record<L, P>>) -> (X, Seq<Record<L, P>>),
    /// Takes the shards that are full out of what is held back, or all of them at the end.
    pub split: spec_fn(X, bool) -> (X, Seq<Record<L, P>>),
    /// Adds the events that follow from those of the records.
    pub depend: spec_fn(Seq<Record<L, P>>) -> Seq<Record<L, P>>,
    /// Fixes the shape of a record.
    pub fix: spec_fn(Record<L, P>) -> Record<L, P>,
    /// The trace of a record.
    pub generate: spec_fn(Record<L, P>) -> T,
    /// The proof of one shard.
    pub open: spec_fn(Record<L, P>, T) -> F,
}

impl<L: Layout, P, T, X, F> Run<L, P, T, X, F> {
    /// Whether checkpoint `k` ends the program.
    pub open spec fn is_last(self, k: nat) -> bool {
        k + 1 == self.checkpoints
    }

    /// The last public values and what is held back when checkpoint `k` gets its turn, if the
    /// checkpoints are worked through one by one.
    pub open spec fn before(self, k: nat) -> (PublicValues<L>, X)
        decreases k,
    {
        if k == 0 {
            (self.values, self.held)
        } else {
            let j = (k - 1) as nat;
            let (values, held) = self.before(j);
            let stamped = execution_stamped(values, (self.trace)(j));
            let (shards, left) = self.split_from(held, stamped, self.is_last(j));
            (
                values_after_closing(
                    values_after_execution(values, (self.trace)(j)),
                    self.is_last(j),
                    shards,
                ),
                left,
            )
        }
    }

    /// The shards that are full once the events of `records` are held back too, or all of them if
    /// `done`, and what stays held back.
    pub open spec fn split_from(self, held: X, records: Seq<Record<L, P>>, done: bool) -> (
        Seq<Record<L, P>>,
        X,
    ) {
        let (left, shards) = (self.split)((self.defer)(held, records).0, done);
        (shards, left)
    }

    /// The execution shards of checkpoint `k`, numbered.
    pub open spec fn stamped(self, k: nat) -> Seq<Record<L, P>> {
        execution_stamped(self.before(k).0, (self.trace)(k))
    }

    /// The last public values once the execution shards of checkpoint `k` are numbered.
    pub open spec fn values_stamped(self, k: nat) -> PublicValues<L> {
        values_after_execution(self.before(k).0, (self.trace)(k))
    }

    /// The execution shards of checkpoint `k` without the events that are held back.
    pub open spec fn lightened(self, k: nat) -> Seq<Record<L, P>> {
        (self.defer)(self.before(k).1, self.stamped(k)).1
    }

    /// The deferred shards that are ready with checkpoint `k`, not numbered.
    pub open spec fn deferred(self, k: nat) -> Seq<Record<L, P>> {
        self.split_from(self.before(k).1, self.stamped(k), self.is_last(k)).0
    }

    /// The shards of checkpoint `k`, numbered.
    pub open spec fn closed(self, k: nat) -> Seq<Record<L, P>> {
        self.lightened(k) + closing_shards(
            self.values_stamped(k),
            self.is_last(k),
            self.deferred(k),
        )
    }

    /// The shards of checkpoint `k` as they are proved.
    pub open spec fn shards(self, k: nat) -> Seq<Record<L, P>> {
        self.shaped((self.depend)(self.closed(k)), self.fix_shapes)
    }

    /// Records with their shapes fixed, if they are to be.
    pub open spec fn shaped(self, records: Seq<Record<L, P>>, fix_shapes: bool) -> Seq<
        Record<L, P>,
    > {
        if fix_shapes {
            records.map_values(self.fix)
        } else {
            records
        }
    }

    /// The batches of checkpoint `k`.
    pub open spec fn batches(self, k: nat) -> Seq<Batch<L, P, T>> {
        batched(self.shards(k), self.shards(k).map_values(self.generate), self.batch_size)
    }

    /// The batches of the first `k` checkpoints.
    pub open spec fn all_batches(self, k: nat) -> Seq<Batch<L, P, T>>
        decreases k,
    {
        if k == 0 {
            seq![]
        } else {
            self.all_batches((k - 1) as nat) + self.batches((k - 1) as nat)
        }
    }

    /// The shards of the first `k` checkpoints as they are proved.
    pub open spec fn all_shards(self, k: nat) -> Seq<Record<L, P>>
        decreases k,
    {
        if k == 0 {
            seq![]
        } else {
            self.all_shards((k - 1) as nat) + self.shards((k - 1) as nat)
        }
    }

    /// The report of the first `k` checkpoints.
    pub open spec fn all_reports(self, k: nat) -> ReportView
        decreases k,
    {
        if k == 0 {
            ReportView::empty(self.opcodes, self.syscalls)
        } else {
            self.all_reports((k - 1) as nat).merged((self.report)((k - 1) as nat))
        }
    }

    /// The instructions that were executed up to each of the first `k` checkpoints, added up.
    pub open spec fn cycles(self, k: nat) -> nat
        decreases k,
    {
        if k == 0 {
            0
        } else {
            self.cycles((k - 1) as nat) + (self.report)((k - 1) as nat).total_instruction_count()
        }
    }

    /// Every report counts the same kinds of opcodes and of system calls.
    pub open spec fn counts_all_kinds(self) -> bool {
        forall|k: nat|
            k < self.checkpoints ==> (#[trigger] (self.report)(k)).counts(
                self.opcodes,
                self.syscalls,
            )
    }

    /// The proofs of one batch.
    pub open spec fn batch_proofs(self, batch: Batch<L, P, T>) -> Seq<F> {
        paired(batch.0, batch.1).map_values(
            |shard: (Record<L, P>, T)| (self.open)(shard.0, shard.1),
        )
    }

    /// The proofs of batches, one batch after the other.
    pub open spec fn proofs(self, batches: Seq<Batch<L, P, T>>) -> Seq<F>
        decreases batches.len(),
    {
        if batches.len() == 0 {
            seq![]
        } else {
            self.proofs(batches.drop_last()) + self.batch_proofs(batches.last())
        }
    }
}

/// A worker that is busy with a checkpoint, and what it has asked for.
pub struct Task<L: Layout, P, T> {
    pub worker: WorkerView<L, P, T>,
    pub action: ActionView<L, P, T>,
}

/// Where a run stands.
pub struct World<L: Layout, P, T, X, F> {
    /// How many checkpoints the generator has sent.
    pub sent: nat,
    /// What the generator has handed back, once it has sent the last checkpoint.
    pub stream: Option<Seq<u8>>,
    /// How many checkpoints the workers have received.
    pub taken: nat,
    /// What the workers share.
    pub shared: CoordinatorView<L>,
    /// The events that are held back.
    pub held: X,
    /// What has been reported.
    pub report: ReportView,
    /// The workers that are busy, under the numbers of their checkpoints.
    pub tasks: Map<nat, Task<L, P, T>>,
    /// The batches that were sent to the prover.
    pub outbox: Seq<Batch<L, P, T>>,
    /// How many of them the prover has proved.
    pub proved: nat,
    /// The proofs that it has collected.
    pub proofs: Seq<F>,
}

/// One step of one thread. The number is that of the checkpoint that a worker is busy with.
pub enum Step {
    /// The generator sends the next checkpoint.
    Send,
    /// A worker that is free receives the next checkpoint.
    Take,
    /// The worker traces the checkpoint and reports on it.
    Trace(nat),
    /// The worker has waited for its turn to number shards, and the turn has come.
    WakeForRecords(nat),
    /// The worker takes out the events to be held back and the shards that are full.
    Split(nat),
    /// The worker adds the events that follow.
    AddDependencies(nat),
    /// The worker fixes the shapes, if it is to, and generates the traces.
    GenerateTraces(nat),
    /// The worker has waited for its turn to send batches, and the turn has come.
    WakeForTraces(nat),
    /// The worker sends a batch.
    SendBatch(nat),
    /// The prover proves the next batch.
    Prove,
}

/// The checkpoint that the worker is busy with whose step it is. The generator, the prover and a
/// worker that is free have none.
pub open spec fn checkpoint_of(step: Step) -> Option<nat> {
    match step {
        Step::Trace(k) => Some(k),
        Step::WakeForRecords(k) => Some(k),
        Step::Split(k) => Some(k),
        Step::AddDependencies(k) => Some(k),
        Step::GenerateTraces(k) => Some(k),
        Step::WakeForTraces(k) => Some(k),
        Step::SendBatch(k) => Some(k),
        Step::Send | Step::Take | Step::Prove => None,
    }
}

impl<L: Layout, P, T, X, F> World<L, P, T, X, F> {
    /// The start of a run.
    pub open spec fn initial(run: Run<L, P, T, X, F>) -> Self {
        World {
            sent: 0,
            stream: None,
            taken: 0,
            shared: initial_coordinator(run.values),
            held: run.held,
            report: ReportView::empty(run.opcodes, run.syscalls),
            tasks: Map::empty(),
            outbox: seq![],
            proved: 0,
            proofs: seq![],
        }
    }

    /// Whether the run is over.
    pub open spec fn is_over(self, run: Run<L, P, T, X, F>) -> bool {
        self.shared.trace_turn == run.checkpoints && self.proved == self.outbox.len()
    }

    /// What the run hands back when it is over: the proofs of its shards, the public values that
    /// the program wrote, and the cycles that were executed.
    pub open spec fn result(self) -> (Seq<F>, Option<Seq<u8>>, nat) {
        (self.proofs, self.stream, self.report.total_instruction_count())
    }

    /// Where the run stands after a step of `worker`, which is busy with checkpoint `k`.
    pub open spec fn stepped(
        self,
        run: Run<L, P, T, X, F>,
        k: nat,
        worker: WorkerView<L, P, T>,
        event: EventView<L, P, T>,
    ) -> Self {
        let outcome = worker_step(self.shared, worker, event, run.batch_size, run.fix_shapes);
        World {
            shared: outcome.shared,
            tasks: if outcome.worker is Receiving {
                self.tasks.remove(k)
            } else {
                self.tasks.insert(k, Task { worker: outcome.worker, action: outcome.action })
            },
            ..self
        }
    }

    /// Where the run stands after the worker that is busy with checkpoint `k` got `event`.
    pub open spec fn told(
        self,
        run: Run<L, P, T, X, F>,
        k: nat,
        event: EventView<L, P, T>,
    ) -> Self {
        self.stepped(run, k, self.tasks[k].worker, event)
    }

    /// Whether `step` can be taken.
    pub open spec fn enabled(self, run: Run<L, P, T, X, F>, step: Step) -> bool {
        match step {
            Step::Send => self.sent < run.checkpoints && self.sent - self.taken
                <= run.checkpoints_channel_capacity,
            Step::Take => self.taken < self.sent && self.taken - self.shared.trace_turn
                < run.workers,
            Step::Trace(k) => self.tasks.contains_key(k) && self.tasks[k].worker is Tracing,
            Step::WakeForRecords(k) => self.tasks.contains_key(k)
                && self.tasks[k].worker is AwaitingRecords && may_stamp(self.shared, k),
            Step::Split(k) => self.tasks.contains_key(k) && self.tasks[k].worker is Deferring,
            Step::AddDependencies(k) => self.tasks.contains_key(k)
                && self.tasks[k].worker is AddingDependencies,
            Step::GenerateTraces(k) => self.tasks.contains_key(k)
                && self.tasks[k].worker is Generating,
            Step::WakeForTraces(k) => self.tasks.contains_key(k)
                && self.tasks[k].worker is AwaitingTraces && may_send(self.shared, k),
            Step::SendBatch(k) => self.tasks.contains_key(k) && self.tasks[k].worker is Sending
                && self.outbox.len() - self.proved <= run.records_and_traces_channel_capacity,
            Step::Prove => self.proved < self.outbox.len(),
        }
    }

    /// Where the run stands after `step`.
    pub open spec fn after(self, run: Run<L, P, T, X, F>, step: Step) -> Self {
        match step {
            Step::Send => World {
                sent: self.sent + 1,
                stream: if run.is_last(self.sent) {
                    Some(run.stream)
                } else {
                    self.stream
                },
                ..self
            },
            Step::Take => World { taken: self.taken + 1, ..self }.stepped(
                run,
                self.taken,
                WorkerView::Receiving,
                EventView::Received { index: self.taken, done: run.is_last(self.taken) },
            ),
            Step::Trace(k) => World {
                report: self.report.merged((run.report)(k)),
                ..self
            }.told(run, k, EventView::Traced { records: (run.trace)(k) }),
            Step::WakeForRecords(k) => self.told(run, k, EventView::Woken),
            Step::Split(k) => {
                let done = self.tasks[k].action->done;
                let records = self.tasks[k].action->DeferAndSplit_records;
                let (shards, left) = run.split_from(self.held, records, done);
                World { held: left, ..self }.told(
                    run,
                    k,
                    EventView::Split {
                        records: (run.defer)(self.held, records).1,
                        deferred: shards,
                    },
                )
            },
            Step::AddDependencies(k) => self.told(
                run,
                k,
                EventView::DependenciesAdded {
                    records: (run.depend)(self.tasks[k].action->AddDependencies_records),
                },
            ),
            Step::GenerateTraces(k) => {
                let records = run.shaped(
                    self.tasks[k].action->GenerateTraces_records,
                    self.tasks[k].action->fix_shapes,
                );
                self.told(
                    run,
                    k,
                    EventView::TracesGenerated {
                        records,
                        traces: records.map_values(run.generate),
                    },
                )
            },
            Step::WakeForTraces(k) => self.told(run, k, EventView::Woken),
            Step::SendBatch(k) => World {
                outbox: self.outbox.push(self.tasks[k].action->Send_batch),
                ..self
            }.told(run, k, EventView::BatchSent),
            Step::Prove => World {
                proved: self.proved + 1,
                proofs: self.proofs + run.batch_proofs(self.outbox[self.proved as int]),
                ..self
            },
        }
    }

    /// Whether `steps` can be taken one after the other from the start of the run.
    pub open spec fn is_schedule(run: Run<L, P, T, X, F>, steps: Seq<Step>) -> bool
        decreases steps.len(),
    {
        steps.len() > 0 ==> {
            &&& Self::is_schedule(run, steps.drop_last())
            &&& Self::reached(run, steps.drop_last()).enabled(run, steps.last())
        }
    }

    /// Where the run stands after `steps`.
    pub open spec fn reached(run: Run<L, P, T, X, F>, steps: Seq<Step>) -> Self
        decreases steps.len(),
    {
        if steps.len() == 0 {
            World::initial(run)
        } else {
            Self::reached(run, steps.drop_last()).after(run, steps.last())
        }
    }
}

} // verus!

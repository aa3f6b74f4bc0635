//! What comes out of every schedule of a run, and that none gets stuck.
use vstd::prelude::*;

use crate::numbering_laws::{law_numbers_used, law_one_proof_per_shard};
use crate::schedule::{checkpoint_of, Run, Step, Task, World};
use crate::coordinator::Stage;
use crate::schedule_invariant::{consistent, law_consistent, task_agrees};
use crate::values::{Layout, Record};
use crate::worker::{is_due_in, may_step, worker_step, EventView, WorkerView};

verus! {

/// However its threads interleave, a run that is over has the same proofs in the same order: those
/// of the batches of the first checkpoint, then those of the second, and so on.
pub proof fn law_same_proof<L: Layout, P, T, X, F>(run: Run<L, P, T, X, F>, steps: Seq<Step>)
    requires
        World::<L, P, T, X, F>::is_schedule(run, steps),
        World::<L, P, T, X, F>::reached(run, steps).is_over(run),
    ensures
        World::<L, P, T, X, F>::reached(run, steps).proofs == run.proofs(
            run.all_batches(run.checkpoints),
        ),
{
    law_consistent(run, steps);
    let world = World::<L, P, T, X, F>::reached(run, steps);
    assert(!world.tasks.contains_key(run.checkpoints));
    assert(world.outbox =~= run.all_batches(run.checkpoints));
    assert(world.outbox.take(world.proved as int) =~= world.outbox);
}

/// However its threads interleave, a run that is over has one proof for each of its shards, in the
/// order of their numbers, and each made with the shard's own trace.
pub proof fn law_every_shard_proved<L: Layout, P, T, X, F>(
    run: Run<L, P, T, X, F>,
    steps: Seq<Step>,
)
    requires
        World::<L, P, T, X, F>::is_schedule(run, steps),
        World::<L, P, T, X, F>::reached(run, steps).is_over(run),
    ensures
        World::<L, P, T, X, F>::reached(run, steps).proofs == run.all_shards(
            run.checkpoints,
        ).map_values(|record: Record<L, P>| (run.open)(record, (run.generate)(record))),
{
    law_same_proof(run, steps);
    law_one_proof_per_shard(run, run.checkpoints);
}

/// A run that is over has left behind what working through its checkpoints one by one leaves: the
/// public values of its last shard, the events that are still held back, no worker that is busy,
/// and the public values that the program wrote.
pub proof fn law_final_state<L: Layout, P, T, X, F>(
    run: Run<L, P, T, X, F>,
    steps: Seq<Step>,
)
    requires
        World::<L, P, T, X, F>::is_schedule(run, steps),
        World::<L, P, T, X, F>::reached(run, steps).is_over(run),
    ensures
        ({
            let world = World::<L, P, T, X, F>::reached(run, steps);
            &&& world.shared.values == run.before(run.checkpoints).0
            &&& world.held == run.before(run.checkpoints).1
            &&& world.tasks == Map::<nat, Task<L, P, T>>::empty()
            &&& world.stream == if run.checkpoints > 0 {
                Some(run.stream)
            } else {
                None
            }
        }),
{
    law_consistent(run, steps);
    let world = World::<L, P, T, X, F>::reached(run, steps);
    assert(!world.tasks.contains_key(run.checkpoints));
    assert(world.tasks =~= Map::<nat, Task<L, P, T>>::empty());
}

/// A run that is over holds no events back, if it has a checkpoint and the split at the end of a
/// program leaves nothing held back.
pub proof fn law_nothing_held_back<L: Layout, P, T, X, F>(
    run: Run<L, P, T, X, F>,
    steps: Seq<Step>,
    empty: X,
)
    requires
        run.checkpoints > 0,
        forall|held: X| (#[trigger] (run.split)(held, true)).0 == empty,
        World::<L, P, T, X, F>::is_schedule(run, steps),
        World::<L, P, T, X, F>::reached(run, steps).is_over(run),
    ensures
        World::<L, P, T, X, F>::reached(run, steps).held == empty,
{
    law_final_state(run, steps);
}

/// A step that can be taken wherever a run stands, unless it is over.
spec fn ready_step<L: Layout, P, T, X, F>(world: World<L, P, T, X, F>) -> Step {
    let k = world.shared.trace_turn;
    if world.proved < world.outbox.len() {
        Step::Prove
    } else if world.tasks.contains_key(k) {
        match world.tasks[k].worker {
            WorkerView::Tracing { .. } => Step::Trace(k),
            WorkerView::AwaitingRecords { .. } => Step::WakeForRecords(k),
            WorkerView::Deferring { .. } => Step::Split(k),
            WorkerView::AddingDependencies { .. } => Step::AddDependencies(k),
            WorkerView::Generating { .. } => Step::GenerateTraces(k),
            WorkerView::AwaitingTraces { .. } => Step::WakeForTraces(k),
            _ => Step::SendBatch(k),
        }
    } else if world.taken < world.sent {
        Step::Take
    } else {
        Step::Send
    }
}

proof fn lemma_ready_step<L: Layout, P, T, X, F>(
    run: Run<L, P, T, X, F>,
    world: World<L, P, T, X, F>,
)
    requires
        run.workers > 0,
        consistent(run, world),
        !world.is_over(run),
    ensures
        world.enabled(run, ready_step(world)),
{
    let k = world.shared.trace_turn;
    if world.tasks.contains_key(k) {
        assert(task_agrees(run, world.shared, world.tasks[k], k));
    }
}

/// Before a run is over, some thread can take a step, if there is a worker at all.
pub proof fn law_no_deadlock<L: Layout, P, T, X, F>(run: Run<L, P, T, X, F>, steps: Seq<Step>)
    requires
        run.workers > 0,
        World::<L, P, T, X, F>::is_schedule(run, steps),
        !World::<L, P, T, X, F>::reached(run, steps).is_over(run),
    ensures
        exists|step: Step|
            #[trigger] World::<L, P, T, X, F>::reached(run, steps).enabled(run, step),
{
    law_consistent(run, steps);
    lemma_ready_step(run, World::<L, P, T, X, F>::reached(run, steps));
}

/// Wherever a schedule leads, a worker that waits is due just when the step that wakes it can be
/// taken: one that waits to number the shards of checkpoint `k` once the turn to number has come to
/// `k` and none of them is numbered, and one that waits to send its batches once the turn to send has
/// come to `k` and the turn to number is past it.
pub proof fn law_due_when_enabled<L: Layout, P, T, X, F>(
    run: Run<L, P, T, X, F>,
    steps: Seq<Step>,
    k: nat,
)
    requires
        World::<L, P, T, X, F>::is_schedule(run, steps),
        World::<L, P, T, X, F>::reached(run, steps).tasks.contains_key(k),
    ensures
        ({
            let world = World::<L, P, T, X, F>::reached(run, steps);
            let worker = world.tasks[k].worker;
            let due = is_due_in(world.shared, worker);
            &&& worker is AwaitingRecords ==> {
                &&& due <==> world.enabled(run, Step::WakeForRecords(k))
                &&& due <==> world.shared.record_turn == k && world.shared.stage == Stage::Idle
            }
            &&& worker is AwaitingTraces ==> {
                &&& due <==> world.enabled(run, Step::WakeForTraces(k))
                &&& due <==> world.shared.trace_turn == k && k < world.shared.record_turn
            }
            &&& !(worker is AwaitingRecords) && !(worker is AwaitingTraces) ==> due
        }),
{
    law_consistent(run, steps);
    let world = World::<L, P, T, X, F>::reached(run, steps);
    assert(task_agrees(run, world.shared, world.tasks[k], k));
}

/// Before a run is over, some thread can take a step without waking a worker that is not due, if
/// there is a worker at all.
pub proof fn law_due_workers_suffice<L: Layout, P, T, X, F>(
    run: Run<L, P, T, X, F>,
    steps: Seq<Step>,
)
    requires
        run.workers > 0,
        World::<L, P, T, X, F>::is_schedule(run, steps),
        !World::<L, P, T, X, F>::reached(run, steps).is_over(run),
    ensures
        exists|step: Step|
            #[trigger] World::<L, P, T, X, F>::reached(run, steps).enabled(run, step) && (
            checkpoint_of(step) matches Some(k) ==> is_due_in(
                World::<L, P, T, X, F>::reached(run, steps).shared,
                World::<L, P, T, X, F>::reached(run, steps).tasks[k].worker,
            )),
{
    law_consistent(run, steps);
    let world = World::<L, P, T, X, F>::reached(run, steps);
    lemma_ready_step(run, world);
    let step = ready_step(world);
    assert(world.enabled(run, step));
    if let Some(k) = checkpoint_of(step) {
        assert(world.tasks.contains_key(k));
        law_due_when_enabled(run, steps, k);
    }
}

/// The shards of a checkpoint are proved with the shapes fixed to which the configuration fixes them,
/// each on its own, if shapes are to be fixed, and as they are otherwise.
pub proof fn law_shapes_fixed<L: Layout, P, T, X, F>(run: Run<L, P, T, X, F>, k: nat)
    ensures
        ({
            let records = (run.depend)(run.closed(k));
            &&& run.shards(k).len() == records.len()
            &&& forall|i: int|
                0 <= i < records.len() ==> #[trigger] run.shards(k)[i] == if run.fix_shapes {
                    (run.fix)(records[i])
                } else {
                    records[i]
                }
        }),
{
}

/// What the worker that is busy with checkpoint `k` gets to hear by `step`.
pub open spec fn event_of<L: Layout, P, T, X, F>(
    run: Run<L, P, T, X, F>,
    world: World<L, P, T, X, F>,
    k: nat,
    step: Step,
) -> EventView<L, P, T> {
    let action = world.tasks[k].action;
    match step {
        Step::Trace(_) => EventView::Traced { records: (run.trace)(k) },
        Step::Split(_) => EventView::Split {
            records: (run.defer)(world.held, action->DeferAndSplit_records).1,
            deferred: run.split_from(
                world.held,
                action->DeferAndSplit_records,
                action->done,
            ).0,
        },
        Step::AddDependencies(_) => EventView::DependenciesAdded {
            records: (run.depend)(action->AddDependencies_records),
        },
        Step::GenerateTraces(_) => EventView::TracesGenerated {
            records: run.shaped(action->GenerateTraces_records, action->fix_shapes),
            traces: run.shaped(action->GenerateTraces_records, action->fix_shapes).map_values(
                run.generate,
            ),
        },
        Step::SendBatch(_) => EventView::BatchSent,
        _ => EventView::Woken,
    }
}

/// The numbers suffice for all shards, execution shards and checkpoints of a run, and a batch holds
/// at least one shard.
pub open spec fn numbers_suffice<L: Layout, P, T, X, F>(run: Run<L, P, T, X, F>) -> bool {
    &&& run.batch_size > 0
    &&& run.checkpoints <= usize::MAX
    &&& forall|k: nat|
        k < run.checkpoints ==> (#[trigger] run.before(k)).0.shard + (run.trace)(k).len()
            + run.deferred(k).len() <= u32::MAX
    &&& forall|k: nat|
        k + 1 < run.checkpoints ==> (#[trigger] run.values_stamped(k)).execution_shard < u32::MAX
}

/// Whatever a worker is told in the course of a schedule, it can go on with: its turn is there when
/// it needs it, as long as the numbers suffice. What it then shares, remembers and asks for is what
/// its step says.
pub proof fn law_workers_go_on<L: Layout, P, T, X, F>(
    run: Run<L, P, T, X, F>,
    steps: Seq<Step>,
    k: nat,
    step: Step,
)
    requires
        numbers_suffice(run),
        World::<L, P, T, X, F>::is_schedule(run, steps),
        World::<L, P, T, X, F>::reached(run, steps).enabled(run, step),
        checkpoint_of(step) == Some(k),
    ensures
        ({
            let world = World::<L, P, T, X, F>::reached(run, steps);
            let worker = world.tasks[k].worker;
            let event = event_of(run, world, k, step);
            let outcome = worker_step(
                world.shared,
                worker,
                event,
                run.batch_size,
                run.fix_shapes,
            );
            let next = world.after(run, step);
            &&& may_step(world.shared, worker, event, run.batch_size)
            &&& next.shared == outcome.shared
            &&& next.tasks == if outcome.worker is Receiving {
                world.tasks.remove(k)
            } else {
                world.tasks.insert(k, Task { worker: outcome.worker, action: outcome.action })
            }
        }),
{
    law_consistent(run, steps);
    lemma_worker_goes_on(run, World::<L, P, T, X, F>::reached(run, steps), k, step);
}

proof fn lemma_worker_goes_on<L: Layout, P, T, X, F>(
    run: Run<L, P, T, X, F>,
    world: World<L, P, T, X, F>,
    k: nat,
    step: Step,
)
    requires
        numbers_suffice(run),
        consistent(run, world),
        world.enabled(run, step),
        checkpoint_of(step) == Some(k),
    ensures
        may_step(
            world.shared,
            world.tasks[k].worker,
            event_of(run, world, k, step),
            run.batch_size,
        ),
{
    assert(task_agrees(run, world.shared, world.tasks[k], k));
    assert(run.before(k).0.shard + (run.trace)(k).len() + run.deferred(k).len() <= u32::MAX);
    law_numbers_used(run.before(k).0, (run.trace)(k), run.is_last(k), run.deferred(k));
    if k + 1 < run.checkpoints {
        assert(run.values_stamped(k).execution_shard < u32::MAX);
    }
}

} // verus!

//! What holds wherever a schedule leads.
use vstd::prelude::*;

use crate::coordinator::{CoordinatorView, Stage};
use crate::schedule::{Run, Step, Task, World};
use crate::values::Layout;
use crate::worker::{ActionView, WorkerView};

verus! {

/// What the worker that is busy with checkpoint `k` has is what the checkpoint would have come to
/// if the checkpoints were worked through one by one.
pub open spec fn task_agrees<L: Layout, P, T, X, F>(
    run: Run<L, P, T, X, F>,
    shared: CoordinatorView<L>,
    task: Task<L, P, T>,
    k: nat,
) -> bool {
    let turn = shared.record_turn;
    let stage = shared.stage;
    let action = task.action;
    match task.worker {
        WorkerView::Tracing { index, done } => {
            &&& index == k && done == run.is_last(k)
            &&& k > turn || (k == turn && stage == Stage::Idle)
        },
        WorkerView::AwaitingRecords { index, done, records } => {
            &&& index == k && done == run.is_last(k)
            &&& k > turn || (k == turn && stage == Stage::Idle)
            &&& records == (run.trace)(k)
        },
        WorkerView::Deferring { index, done } => {
            &&& index == k && done == run.is_last(k)
            &&& k == turn && stage == Stage::Stamped
            &&& action == ActionView::<L, P, T>::DeferAndSplit { done, records: run.stamped(k) }
        },
        WorkerView::AddingDependencies { index } => {
            &&& index == k
            &&& k == turn && stage == Stage::Closed
            &&& action == ActionView::<L, P, T>::AddDependencies { records: run.closed(k) }
        },
        WorkerView::Generating { index } => {
            &&& index == k
            &&& k < turn
            &&& action == ActionView::<L, P, T>::GenerateTraces {
                fix_shapes: run.fix_shapes,
                records: (run.depend)(run.closed(k)),
            }
        },
        WorkerView::AwaitingTraces { index, records, traces } => {
            &&& index == k
            &&& k < turn
            &&& records == run.shards(k)
            &&& traces == run.shards(k).map_values(run.generate)
        },
        WorkerView::Sending { index, rest } => {
            let batches = run.batches(k);
            let sent = batches.len() - rest.len() - 1;
            &&& index == k
            &&& k < turn && k == shared.trace_turn
            &&& sent >= 0
            &&& action == ActionView::Send { batch: batches[sent] }
            &&& rest == batches.skip(sent + 1)
        },
        _ => false,
    }
}

/// The shared state is what it would have been if the checkpoints were worked through one by one.
pub open spec fn shared_agrees<L: Layout, P, T, X, F>(
    run: Run<L, P, T, X, F>,
    world: World<L, P, T, X, F>,
) -> bool {
    let turn = world.shared.record_turn;
    match world.shared.stage {
        Stage::Idle => {
            &&& world.shared.values == run.before(turn).0
            &&& world.held == run.before(turn).1
        },
        Stage::Stamped => {
            &&& world.tasks.contains_key(turn)
            &&& world.tasks[turn].worker is Deferring
            &&& world.shared.values == run.values_stamped(turn)
            &&& world.held == run.before(turn).1
        },
        Stage::Closed => {
            &&& world.tasks.contains_key(turn)
            &&& world.tasks[turn].worker is AddingDependencies
            &&& world.shared.values == run.before(turn + 1).0
            &&& world.held == run.before(turn + 1).1
        },
    }
}

/// How many batches of the checkpoint whose turn it is to send are sent.
pub open spec fn batches_sent<L: Layout, P, T, X, F>(
    run: Run<L, P, T, X, F>,
    world: World<L, P, T, X, F>,
) -> int {
    let turn = world.shared.trace_turn;
    if world.tasks.contains_key(turn) && world.tasks[turn].worker is Sending {
        run.batches(turn).len() - world.tasks[turn].worker->rest.len() - 1
    } else {
        0
    }
}

/// What holds wherever a run stands.
pub open spec fn consistent<L: Layout, P, T, X, F>(
    run: Run<L, P, T, X, F>,
    world: World<L, P, T, X, F>,
) -> bool {
    &&& world.shared.trace_turn <= world.shared.record_turn <= world.taken <= world.sent
        <= run.checkpoints
    &&& world.taken - world.shared.trace_turn <= run.workers
    &&& world.stream == if world.sent == run.checkpoints && run.checkpoints > 0 {
        Some(run.stream)
    } else {
        None
    }
    &&& forall|k: nat| #[trigger]
        world.tasks.contains_key(k) <==> world.shared.trace_turn <= k < world.taken
    &&& forall|k: nat| #[trigger] world.tasks.contains_key(k) ==> task_agrees(run, world.shared, world.tasks[k], k)
    &&& shared_agrees(run, world)
    &&& world.outbox == run.all_batches(world.shared.trace_turn) + run.batches(
        world.shared.trace_turn,
    ).take(batches_sent(run, world))
    &&& world.proved <= world.outbox.len()
    &&& world.proofs == run.proofs(world.outbox.take(world.proved as int))
}

proof fn lemma_consistent_initial<L: Layout, P, T, X, F>(run: Run<L, P, T, X, F>)
    ensures
        consistent(run, World::initial(run)),
{
    let world = World::initial(run);
    assert(world.outbox =~= run.all_batches(0) + run.batches(0).take(0));
    assert(world.outbox.take(0) =~= seq![]);
}

proof fn lemma_consistent_send<L: Layout, P, T, X, F>(
    run: Run<L, P, T, X, F>,
    world: World<L, P, T, X, F>,
)
    requires
        consistent(run, world),
        world.enabled(run, Step::Send),
    ensures
        consistent(run, world.after(run, Step::Send)),
{
}

proof fn lemma_consistent_take<L: Layout, P, T, X, F>(
    run: Run<L, P, T, X, F>,
    world: World<L, P, T, X, F>,
)
    requires
        consistent(run, world),
        world.enabled(run, Step::Take),
    ensures
        consistent(run, world.after(run, Step::Take)),
{
}

proof fn lemma_consistent_trace<L: Layout, P, T, X, F>(
    run: Run<L, P, T, X, F>,
    world: World<L, P, T, X, F>,
    k: nat,
)
    requires
        consistent(run, world),
        world.enabled(run, Step::Trace(k)),
    ensures
        consistent(run, world.after(run, Step::Trace(k))),
{
    assert(task_agrees(run, world.shared, world.tasks[k], k));
}

proof fn lemma_consistent_wake_for_records<L: Layout, P, T, X, F>(
    run: Run<L, P, T, X, F>,
    world: World<L, P, T, X, F>,
    k: nat,
)
    requires
        consistent(run, world),
        world.enabled(run, Step::WakeForRecords(k)),
    ensures
        consistent(run, world.after(run, Step::WakeForRecords(k))),
{
    assert(task_agrees(run, world.shared, world.tasks[k], k));
}

proof fn lemma_consistent_split<L: Layout, P, T, X, F>(
    run: Run<L, P, T, X, F>,
    world: World<L, P, T, X, F>,
    k: nat,
)
    requires
        consistent(run, world),
        world.enabled(run, Step::Split(k)),
    ensures
        consistent(run, world.after(run, Step::Split(k))),
{
    assert(task_agrees(run, world.shared, world.tasks[k], k));
}

proof fn lemma_consistent_add_dependencies<L: Layout, P, T, X, F>(
    run: Run<L, P, T, X, F>,
    world: World<L, P, T, X, F>,
    k: nat,
)
    requires
        consistent(run, world),
        world.enabled(run, Step::AddDependencies(k)),
    ensures
        consistent(run, world.after(run, Step::AddDependencies(k))),
{
    assert(task_agrees(run, world.shared, world.tasks[k], k));
}

proof fn lemma_consistent_generate_traces<L: Layout, P, T, X, F>(
    run: Run<L, P, T, X, F>,
    world: World<L, P, T, X, F>,
    k: nat,
)
    requires
        consistent(run, world),
        world.enabled(run, Step::GenerateTraces(k)),
    ensures
        consistent(run, world.after(run, Step::GenerateTraces(k))),
{
    assert(task_agrees(run, world.shared, world.tasks[k], k));
    lemma_sending_starts(run, k);
}

proof fn lemma_consistent_wake_for_traces<L: Layout, P, T, X, F>(
    run: Run<L, P, T, X, F>,
    world: World<L, P, T, X, F>,
    k: nat,
)
    requires
        consistent(run, world),
        world.enabled(run, Step::WakeForTraces(k)),
    ensures
        consistent(run, world.after(run, Step::WakeForTraces(k))),
{
    assert(task_agrees(run, world.shared, world.tasks[k], k));
    lemma_sending_starts(run, k);
}

proof fn lemma_consistent_send_batch<L: Layout, P, T, X, F>(
    run: Run<L, P, T, X, F>,
    world: World<L, P, T, X, F>,
    k: nat,
)
    requires
        consistent(run, world),
        world.enabled(run, Step::SendBatch(k)),
    ensures
        consistent(run, world.after(run, Step::SendBatch(k))),
{
    assert(task_agrees(run, world.shared, world.tasks[k], k));
    let next = world.after(run, Step::SendBatch(k));
    let batches = run.batches(k);
    let sent = batches_sent(run, world);
    let rest = world.tasks[k].worker->rest;
    assert(batches.take(sent).push(batches[sent]) =~= batches.take(sent + 1));
    assert(next.outbox =~= run.all_batches(k) + batches.take(sent + 1));
    assert(next.outbox.take(next.proved as int) =~= world.outbox.take(world.proved as int));
    if rest.len() == 0 {
        lemma_sending_ends(run, k);
    } else {
        assert(rest.drop_first() =~= batches.skip(sent + 2));
    }
}

proof fn lemma_consistent_prove<L: Layout, P, T, X, F>(
    run: Run<L, P, T, X, F>,
    world: World<L, P, T, X, F>,
)
    requires
        consistent(run, world),
        world.enabled(run, Step::Prove),
    ensures
        consistent(run, world.after(run, Step::Prove)),
{
    let taken = world.outbox.take(world.proved as int + 1);
    assert(taken.drop_last() =~= world.outbox.take(world.proved as int));
    assert(taken.last() == world.outbox[world.proved as int]);
}

proof fn lemma_consistent_step<L: Layout, P, T, X, F>(
    run: Run<L, P, T, X, F>,
    world: World<L, P, T, X, F>,
    step: Step,
)
    requires
        consistent(run, world),
        world.enabled(run, step),
    ensures
        consistent(run, world.after(run, step)),
{
    match step {
        Step::Send => lemma_consistent_send(run, world),
        Step::Take => lemma_consistent_take(run, world),
        Step::Trace(k) => lemma_consistent_trace(run, world, k),
        Step::WakeForRecords(k) => lemma_consistent_wake_for_records(run, world, k),
        Step::Split(k) => lemma_consistent_split(run, world, k),
        Step::AddDependencies(k) => lemma_consistent_add_dependencies(run, world, k),
        Step::GenerateTraces(k) => lemma_consistent_generate_traces(run, world, k),
        Step::WakeForTraces(k) => lemma_consistent_wake_for_traces(run, world, k),
        Step::SendBatch(k) => lemma_consistent_send_batch(run, world, k),
        Step::Prove => lemma_consistent_prove(run, world),
    }
}

proof fn lemma_sending_ends<L: Layout, P, T, X, F>(run: Run<L, P, T, X, F>, k: nat)
    ensures
        run.all_batches(k) + run.batches(k).take(run.batches(k).len() as int)
            == run.all_batches(k + 1) + run.batches(k + 1).take(0),
{
    assert(run.batches(k).take(run.batches(k).len() as int) =~= run.batches(k));
    assert(run.all_batches(k + 1) == run.all_batches(k) + run.batches(k));
    assert(run.all_batches(k + 1) + run.batches(k + 1).take(0) =~= run.all_batches(k + 1));
}

proof fn lemma_sending_starts<L: Layout, P, T, X, F>(run: Run<L, P, T, X, F>, k: nat)
    ensures
        run.batches(k).len() == 0 ==> run.all_batches(k) + run.batches(k).take(0)
            == run.all_batches(k + 1) + run.batches(k + 1).take(0),
        run.batches(k).len() > 0 ==> run.batches(k).drop_first() == run.batches(k).skip(1),
{
    let batches = run.batches(k);
    if batches.len() == 0 {
        lemma_sending_ends(run, k);
    } else {
        assert(batches.drop_first() =~= batches.skip(1));
    }
}

/// Wherever a schedule leads, each checkpoint has come to what it would have come to if the
/// checkpoints were worked through one by one. At most one checkpoint is between taking its turn
/// to number shards and handing it on.
pub proof fn law_consistent<L: Layout, P, T, X, F>(run: Run<L, P, T, X, F>, steps: Seq<Step>)
    requires
        World::<L, P, T, X, F>::is_schedule(run, steps),
    ensures
        consistent(run, World::<L, P, T, X, F>::reached(run, steps)),
    decreases steps.len(),
{
    if steps.len() == 0 {
        lemma_consistent_initial(run);
    } else {
        law_consistent(run, steps.drop_last());
        lemma_consistent_step(
            run,
            World::<L, P, T, X, F>::reached(run, steps.drop_last()),
            steps.last(),
        );
    }
}

} // verus!

//! Why every schedule ends.
use vstd::prelude::*;

use crate::schedule::{checkpoint_of, Run, Step, Task, World};
use crate::schedule_invariant::{consistent, law_consistent, task_agrees};
use crate::values::Layout;
use crate::worker::WorkerView;

verus! {

/// How far the workers have got with checkpoint `k`, the batches that they sent aside.
spec fn level<L: Layout, P, T, X, F>(world: World<L, P, T, X, F>, k: nat) -> nat {
    if k < world.shared.trace_turn {
        8
    } else if world.tasks.contains_key(k) {
        match world.tasks[k].worker {
            WorkerView::Tracing { .. } => 1,
            WorkerView::AwaitingRecords { .. } => 2,
            WorkerView::Deferring { .. } => 3,
            WorkerView::AddingDependencies { .. } => 4,
            WorkerView::Generating { .. } => 5,
            WorkerView::AwaitingTraces { .. } => 6,
            WorkerView::Sending { .. } => 7,
            _ => 0,
        }
    } else {
        0
    }
}

spec fn levels<L: Layout, P, T, X, F>(world: World<L, P, T, X, F>, count: nat) -> nat
    decreases count,
{
    if count == 0 {
        0
    } else {
        levels(world, (count - 1) as nat) + level(world, (count - 1) as nat)
    }
}

proof fn lemma_levels_bounded<L: Layout, P, T, X, F>(world: World<L, P, T, X, F>, count: nat)
    ensures
        levels(world, count) <= 8 * count,
    decreases count,
{
    if count > 0 {
        lemma_levels_bounded(world, (count - 1) as nat);
    }
}

proof fn lemma_levels_same<L: Layout, P, T, X, F>(
    world: World<L, P, T, X, F>,
    next: World<L, P, T, X, F>,
    count: nat,
)
    requires
        forall|k: nat| k < count ==> level(next, k) == #[trigger] level(world, k),
    ensures
        levels(next, count) == levels(world, count),
    decreases count,
{
    if count > 0 {
        let last = (count - 1) as nat;
        lemma_levels_same(world, next, last);
        assert(level(next, last) == level(world, last));
    }
}

proof fn lemma_levels_raised<L: Layout, P, T, X, F>(
    world: World<L, P, T, X, F>,
    next: World<L, P, T, X, F>,
    raised: nat,
    count: nat,
)
    requires
        raised < count,
        forall|k: nat| k < count && k != raised ==> level(next, k) == #[trigger] level(world, k),
    ensures
        levels(next, count) - levels(world, count) == level(next, raised) - level(world, raised),
    decreases count,
{
    let last = (count - 1) as nat;
    if last == raised {
        lemma_levels_same(world, next, last);
    } else {
        lemma_levels_raised(world, next, raised, last);
        assert(level(next, last) == level(world, last));
    }
}

/// A number that no step leaves as it is.
spec fn progress<L: Layout, P, T, X, F>(
    run: Run<L, P, T, X, F>,
    world: World<L, P, T, X, F>,
) -> nat {
    world.sent + levels(world, run.checkpoints) + world.outbox.len() + world.proved
}

/// The number of the checkpoint that a worker remembers.
spec fn index_of<L: Layout, P, T>(worker: WorkerView<L, P, T>) -> nat {
    match worker {
        WorkerView::Tracing { index, .. } => index,
        WorkerView::AwaitingRecords { index, .. } => index,
        WorkerView::Deferring { index, .. } => index,
        WorkerView::AddingDependencies { index } => index,
        WorkerView::Generating { index } => index,
        WorkerView::AwaitingTraces { index, .. } => index,
        WorkerView::Sending { index, .. } => index,
        _ => 0,
    }
}

proof fn lemma_level_of<L: Layout, P, T, X, F>(
    run: Run<L, P, T, X, F>,
    world: World<L, P, T, X, F>,
    k: nat,
    step: Step,
)
    requires
        forall|j: nat| #[trigger]
            world.tasks.contains_key(j) <==> world.shared.trace_turn <= j < world.taken,
        world.taken <= run.checkpoints,
        index_of(world.tasks[k].worker) == k,
        world.tasks[k].worker is Sending ==> k == world.shared.trace_turn,
        world.enabled(run, step),
        checkpoint_of(step) == Some(k),
    ensures
        progress(run, world.after(run, step)) >= progress(run, world) + 1,
{
    lemma_levels_raised(world, world.after(run, step), k, run.checkpoints);
}

proof fn lemma_progress<L: Layout, P, T, X, F>(
    run: Run<L, P, T, X, F>,
    world: World<L, P, T, X, F>,
    step: Step,
)
    requires
        consistent(run, world),
        world.enabled(run, step),
    ensures
        progress(run, world.after(run, step)) >= progress(run, world) + 1,
{
    let next = world.after(run, step);
    match checkpoint_of(step) {
        Some(k) => {
            assert(task_agrees(run, world.shared, world.tasks[k], k));
            lemma_level_of(run, world, k, step);
        },
        None => {
            if step is Take {
                lemma_levels_raised(world, next, world.taken, run.checkpoints);
            } else {
                lemma_levels_same(world, next, run.checkpoints);
            }
        },
    }
}

proof fn lemma_steps_counted<L: Layout, P, T, X, F>(run: Run<L, P, T, X, F>, steps: Seq<Step>)
    requires
        World::<L, P, T, X, F>::is_schedule(run, steps),
    ensures
        progress(run, World::<L, P, T, X, F>::reached(run, steps)) >= steps.len(),
    decreases steps.len(),
{
    let world = World::<L, P, T, X, F>::reached(run, steps);
    if steps.len() == 0 {
        lemma_levels_none(world, run.checkpoints);
    } else {
        lemma_steps_counted(run, steps.drop_last());
        law_consistent(run, steps.drop_last());
        lemma_progress(
            run,
            World::<L, P, T, X, F>::reached(run, steps.drop_last()),
            steps.last(),
        );
    }
}

proof fn lemma_levels_none<L: Layout, P, T, X, F>(world: World<L, P, T, X, F>, count: nat)
    requires
        world.shared.trace_turn == 0,
        world.tasks == Map::<nat, Task<L, P, T>>::empty(),
    ensures
        levels(world, count) == 0,
    decreases count,
{
    if count > 0 {
        lemma_levels_none(world, (count - 1) as nat);
    }
}

proof fn lemma_batches_grow<L: Layout, P, T, X, F>(run: Run<L, P, T, X, F>, j: nat, k: nat)
    requires
        j < k,
    ensures
        run.all_batches(j).len() + run.batches(j).len() <= run.all_batches(k).len(),
    decreases k,
{
    if j + 1 < k {
        lemma_batches_grow(run, j, (k - 1) as nat);
    } else {
        assert(run.all_batches(k) == run.all_batches(j) + run.batches(j));
    }
}

proof fn lemma_progress_bounded<L: Layout, P, T, X, F>(
    run: Run<L, P, T, X, F>,
    world: World<L, P, T, X, F>,
)
    requires
        consistent(run, world),
    ensures
        progress(run, world) <= 9 * run.checkpoints + 2 * run.all_batches(run.checkpoints).len(),
{
    lemma_levels_bounded(world, run.checkpoints);
    let turn = world.shared.trace_turn;
    if turn < run.checkpoints {
        lemma_batches_grow(run, turn, run.checkpoints);
        if world.tasks.contains_key(turn) {
            assert(task_agrees(run, world.shared, world.tasks[turn], turn));
        }
    } else {
        assert(!world.tasks.contains_key(turn));
    }
}

/// No schedule goes on for ever: none has more than nine steps for each checkpoint and two for
/// each batch.
pub proof fn law_schedules_end<L: Layout, P, T, X, F>(
    run: Run<L, P, T, X, F>,
    steps: Seq<Step>,
)
    requires
        World::<L, P, T, X, F>::is_schedule(run, steps),
    ensures
        steps.len() <= 9 * run.checkpoints + 2 * run.all_batches(run.checkpoints).len(),
{
    law_consistent(run, steps);
    lemma_steps_counted(run, steps);
    lemma_progress_bounded(run, World::<L, P, T, X, F>::reached(run, steps));
}

} // verus!

//! What a run reports does not depend on its schedule.
use vstd::prelude::*;

use crate::execution_report::{
    law_empty_counts_nothing, law_merge_order, law_totals_add, ReportView,
};
use crate::schedule::{checkpoint_of, Run, Step, Task, World};
use crate::schedule_invariant::{consistent, law_consistent, task_agrees};
use crate::values::Layout;

verus! {

/// Whether the execution up to checkpoint `k` is part of the report.
spec fn reported<L: Layout, P, T, X, F>(world: World<L, P, T, X, F>, k: nat) -> bool {
    k < world.shared.trace_turn || (world.tasks.contains_key(k) && !(world.tasks[k].worker is Tracing))
}

/// The report of those of the first `count` checkpoints that are part of it, in their order.
spec fn reports<L: Layout, P, T, X, F>(
    run: Run<L, P, T, X, F>,
    world: World<L, P, T, X, F>,
    count: nat,
) -> ReportView
    decreases count,
{
    if count == 0 {
        ReportView::empty(run.opcodes, run.syscalls)
    } else {
        let last = (count - 1) as nat;
        if reported(world, last) {
            reports(run, world, last).merged((run.report)(last))
        } else {
            reports(run, world, last)
        }
    }
}

proof fn lemma_reports_same<L: Layout, P, T, X, F>(
    run: Run<L, P, T, X, F>,
    world: World<L, P, T, X, F>,
    next: World<L, P, T, X, F>,
    count: nat,
)
    requires
        forall|k: nat| k < count ==> reported(next, k) == #[trigger] reported(world, k),
    ensures
        reports(run, next, count) == reports(run, world, count),
    decreases count,
{
    if count > 0 {
        let last = (count - 1) as nat;
        lemma_reports_same(run, world, next, last);
        assert(reported(next, last) == reported(world, last));
    }
}

proof fn lemma_reports_added<L: Layout, P, T, X, F>(
    run: Run<L, P, T, X, F>,
    world: World<L, P, T, X, F>,
    next: World<L, P, T, X, F>,
    added: nat,
    count: nat,
)
    requires
        added < count,
        !reported(world, added),
        reported(next, added),
        forall|k: nat|
            k < count && k != added ==> reported(next, k) == #[trigger] reported(world, k),
    ensures
        reports(run, next, count) == reports(run, world, count).merged((run.report)(added)),
    decreases count,
{
    let last = (count - 1) as nat;
    if last == added {
        lemma_reports_same(run, world, next, last);
    } else {
        lemma_reports_added(run, world, next, added, last);
        assert(reported(next, last) == reported(world, last));
        law_merge_order(reports(run, world, last), (run.report)(added), (run.report)(last));
    }
}

proof fn lemma_reports_all<L: Layout, P, T, X, F>(
    run: Run<L, P, T, X, F>,
    world: World<L, P, T, X, F>,
    count: nat,
)
    requires
        count <= world.shared.trace_turn,
    ensures
        reports(run, world, count) == run.all_reports(count),
    decreases count,
{
    if count > 0 {
        lemma_reports_all(run, world, (count - 1) as nat);
    }
}

proof fn lemma_reports_none<L: Layout, P, T, X, F>(
    run: Run<L, P, T, X, F>,
    world: World<L, P, T, X, F>,
    count: nat,
)
    requires
        world.shared.trace_turn == 0,
        world.tasks == Map::<nat, Task<L, P, T>>::empty(),
    ensures
        reports(run, world, count) == ReportView::empty(run.opcodes, run.syscalls),
    decreases count,
{
    if count > 0 {
        lemma_reports_none(run, world, (count - 1) as nat);
    }
}

proof fn lemma_report_step<L: Layout, P, T, X, F>(
    run: Run<L, P, T, X, F>,
    world: World<L, P, T, X, F>,
    step: Step,
)
    requires
        consistent(run, world),
        world.enabled(run, step),
        world.report == reports(run, world, run.checkpoints),
    ensures
        world.after(run, step).report == reports(run, world.after(run, step), run.checkpoints),
{
    let next = world.after(run, step);
    if let Some(k) = checkpoint_of(step) {
        assert(task_agrees(run, world.shared, world.tasks[k], k));
    }
    if let Step::Trace(k) = step {
        lemma_reports_added(run, world, next, k, run.checkpoints);
    } else {
        lemma_reports_same(run, world, next, run.checkpoints);
    }
}

proof fn lemma_report<L: Layout, P, T, X, F>(run: Run<L, P, T, X, F>, steps: Seq<Step>)
    requires
        World::<L, P, T, X, F>::is_schedule(run, steps),
    ensures
        ({
            let world = World::<L, P, T, X, F>::reached(run, steps);
            world.report == reports(run, world, run.checkpoints)
        }),
    decreases steps.len(),
{
    if steps.len() == 0 {
        lemma_reports_none(
            run,
            World::<L, P, T, X, F>::reached(run, steps),
            run.checkpoints,
        );
    } else {
        lemma_report(run, steps.drop_last());
        law_consistent(run, steps.drop_last());
        lemma_report_step(
            run,
            World::<L, P, T, X, F>::reached(run, steps.drop_last()),
            steps.last(),
        );
    }
}

/// However its threads interleave, a run that is over has reported on every checkpoint once, as if
/// the checkpoints had been reported on one by one.
pub proof fn law_same_report<L: Layout, P, T, X, F>(
    run: Run<L, P, T, X, F>,
    steps: Seq<Step>,
)
    requires
        World::<L, P, T, X, F>::is_schedule(run, steps),
        World::<L, P, T, X, F>::reached(run, steps).is_over(run),
    ensures
        World::<L, P, T, X, F>::reached(run, steps).report == run.all_reports(
            run.checkpoints,
        ),
{
    lemma_report(run, steps);
    lemma_reports_all(
        run,
        World::<L, P, T, X, F>::reached(run, steps),
        run.checkpoints,
    );
}

proof fn lemma_cycles_add<L: Layout, P, T, X, F>(run: Run<L, P, T, X, F>, k: nat)
    requires
        run.counts_all_kinds(),
        k <= run.checkpoints,
    ensures
        run.all_reports(k).counts(run.opcodes, run.syscalls),
        run.all_reports(k).total_instruction_count() == run.cycles(k),
    decreases k,
{
    if k == 0 {
        law_empty_counts_nothing(run.opcodes, run.syscalls);
    } else {
        let last = (k - 1) as nat;
        lemma_cycles_add(run, last);
        assert((run.report)(last).counts(run.opcodes, run.syscalls));
        law_totals_add(run.all_reports(last), (run.report)(last));
    }
}

/// Two reports count the same kinds, and the first counts no more than the second.
spec fn at_most(less: ReportView, more: ReportView) -> bool {
    &&& less.counts(more.opcode_counts.len(), more.syscall_counts.len())
    &&& forall|i: int|
        0 <= i < less.opcode_counts.len() ==> #[trigger] less.opcode_counts[i]
            <= more.opcode_counts[i]
    &&& forall|i: int|
        0 <= i < less.syscall_counts.len() ==> #[trigger] less.syscall_counts[i]
            <= more.syscall_counts[i]
    &&& less.touched_memory_addresses <= more.touched_memory_addresses
}

proof fn lemma_reports_at_most<L: Layout, P, T, X, F>(
    run: Run<L, P, T, X, F>,
    world: World<L, P, T, X, F>,
    count: nat,
)
    requires
        run.counts_all_kinds(),
        count <= run.checkpoints,
    ensures
        run.all_reports(count).counts(run.opcodes, run.syscalls),
        at_most(reports(run, world, count), run.all_reports(count)),
    decreases count,
{
    if count > 0 {
        let last = (count - 1) as nat;
        lemma_reports_at_most(run, world, last);
        assert((run.report)(last).counts(run.opcodes, run.syscalls));
    }
}

/// Whenever a worker reports in the course of a schedule, its report can be added to what is
/// reported, as long as the counts of the whole run have room.
pub proof fn law_reports_merge<L: Layout, P, T, X, F>(
    run: Run<L, P, T, X, F>,
    steps: Seq<Step>,
    k: nat,
)
    requires
        run.counts_all_kinds(),
        run.all_reports(run.checkpoints).fits(),
        World::<L, P, T, X, F>::is_schedule(run, steps),
        World::<L, P, T, X, F>::reached(run, steps).enabled(run, Step::Trace(k)),
    ensures
        World::<L, P, T, X, F>::reached(run, steps).report.may_merge((run.report)(k)),
{
    let world = World::<L, P, T, X, F>::reached(run, steps);
    let next = world.after(run, Step::Trace(k));
    law_consistent(run, steps);
    lemma_report(run, steps);
    lemma_report_step(run, world, Step::Trace(k));
    lemma_reports_at_most(run, world, run.checkpoints);
    lemma_reports_at_most(run, next, run.checkpoints);
    let all = run.all_reports(run.checkpoints);
    let report = (run.report)(k);
    assert(report.counts(run.opcodes, run.syscalls));
    assert forall|i: int| 0 <= i < world.report.opcode_counts.len() implies #[trigger]
    world.report.opcode_counts[i] + report.opcode_counts[i] <= u64::MAX by {
        assert(next.report.opcode_counts[i] <= all.opcode_counts[i]);
    }
    assert forall|i: int| 0 <= i < world.report.syscall_counts.len() implies #[trigger]
    world.report.syscall_counts[i] + report.syscall_counts[i] <= u64::MAX by {
        assert(next.report.syscall_counts[i] <= all.syscall_counts[i]);
    }
}

/// However its threads interleave, the cycles that a run hands back are the instructions executed
/// up to each of its checkpoints, added up.
pub proof fn law_cycles<L: Layout, P, T, X, F>(run: Run<L, P, T, X, F>, steps: Seq<Step>)
    requires
        run.counts_all_kinds(),
        World::<L, P, T, X, F>::is_schedule(run, steps),
        World::<L, P, T, X, F>::reached(run, steps).is_over(run),
    ensures
        World::<L, P, T, X, F>::reached(run, steps).result().2 == run.cycles(run.checkpoints),
{
    law_same_report(run, steps);
    lemma_cycles_add(run, run.checkpoints);
}

} // verus!

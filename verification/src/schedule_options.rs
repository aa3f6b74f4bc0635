//! What a run hands back does not depend on how the work is spread.
use vstd::prelude::*;

use crate::schedule::{Run, Step, World};
use crate::schedule_laws::{law_every_shard_proved, law_final_state};
use crate::schedule_report::law_same_report;
use crate::values::{Layout, Record};

verus! {

/// Two runs do the same work: they differ at most in how many workers they have, in how much the
/// channels between their threads hold, and in how many shards make a batch.
pub open spec fn same_work<L: Layout, P, T, X, F>(
    a: Run<L, P, T, X, F>,
    b: Run<L, P, T, X, F>,
) -> bool {
    b == (Run {
        workers: b.workers,
        checkpoints_channel_capacity: b.checkpoints_channel_capacity,
        records_and_traces_channel_capacity: b.records_and_traces_channel_capacity,
        batch_size: b.batch_size,
        ..a
    })
}

proof fn lemma_same_before<L: Layout, P, T, X, F>(
    a: Run<L, P, T, X, F>,
    b: Run<L, P, T, X, F>,
    k: nat,
)
    requires
        same_work(a, b),
    ensures
        a.before(k) == b.before(k),
    decreases k,
{
    if k > 0 {
        lemma_same_before(a, b, (k - 1) as nat);
    }
}

proof fn lemma_same_shards<L: Layout, P, T, X, F>(
    a: Run<L, P, T, X, F>,
    b: Run<L, P, T, X, F>,
    k: nat,
)
    requires
        same_work(a, b),
    ensures
        a.all_shards(k) == b.all_shards(k),
    decreases k,
{
    if k > 0 {
        let j = (k - 1) as nat;
        lemma_same_before(a, b, j);
        lemma_same_shards(a, b, j);
        assert(a.shards(j) == b.shards(j));
    }
}

proof fn lemma_same_reports<L: Layout, P, T, X, F>(
    a: Run<L, P, T, X, F>,
    b: Run<L, P, T, X, F>,
    k: nat,
)
    requires
        same_work(a, b),
    ensures
        a.all_reports(k) == b.all_reports(k),
    decreases k,
{
    if k > 0 {
        lemma_same_reports(a, b, (k - 1) as nat);
    }
}

/// Two runs that do the same work end with the same proofs in the same order, the same public
/// values of the program, and the same events held back, whatever their workers, channels and
/// batches, and whichever way their threads interleave.
pub proof fn law_options_keep_proofs<L: Layout, P, T, X, F>(
    a: Run<L, P, T, X, F>,
    b: Run<L, P, T, X, F>,
    a_steps: Seq<Step>,
    b_steps: Seq<Step>,
)
    requires
        same_work(a, b),
        World::<L, P, T, X, F>::is_schedule(a, a_steps),
        World::<L, P, T, X, F>::is_schedule(b, b_steps),
        World::<L, P, T, X, F>::reached(a, a_steps).is_over(a),
        World::<L, P, T, X, F>::reached(b, b_steps).is_over(b),
    ensures
        ({
            let a_end = World::<L, P, T, X, F>::reached(a, a_steps);
            let b_end = World::<L, P, T, X, F>::reached(b, b_steps);
            &&& a_end.proofs == b_end.proofs
            &&& a_end.stream == b_end.stream
            &&& a_end.held == b_end.held
            &&& a_end.shared.values == b_end.shared.values
        }),
{
    law_every_shard_proved(a, a_steps);
    law_every_shard_proved(b, b_steps);
    law_final_state(a, a_steps);
    law_final_state(b, b_steps);
    lemma_same_shards(a, b, a.checkpoints);
    lemma_same_before(a, b, a.checkpoints);
    let a_prove = |record: Record<L, P>| (a.open)(record, (a.generate)(record));
    let b_prove = |record: Record<L, P>| (b.open)(record, (b.generate)(record));
    assert(a.all_shards(a.checkpoints).map_values(a_prove) =~= b.all_shards(
        b.checkpoints,
    ).map_values(b_prove));
}

/// Two runs that do the same work hand the same back, and report the same: proofs, public values
/// and cycles do not depend on the workers, the channels, the batches or the schedule.
pub proof fn law_options_keep_result<L: Layout, P, T, X, F>(
    a: Run<L, P, T, X, F>,
    b: Run<L, P, T, X, F>,
    a_steps: Seq<Step>,
    b_steps: Seq<Step>,
)
    requires
        same_work(a, b),
        World::<L, P, T, X, F>::is_schedule(a, a_steps),
        World::<L, P, T, X, F>::is_schedule(b, b_steps),
        World::<L, P, T, X, F>::reached(a, a_steps).is_over(a),
        World::<L, P, T, X, F>::reached(b, b_steps).is_over(b),
    ensures
        ({
            let a_end = World::<L, P, T, X, F>::reached(a, a_steps);
            let b_end = World::<L, P, T, X, F>::reached(b, b_steps);
            &&& a_end.result() == b_end.result()
            &&& a_end.report == b_end.report
        }),
{
    law_options_keep_proofs(a, b, a_steps, b_steps);
    law_same_report(a, a_steps);
    law_same_report(b, b_steps);
    lemma_same_reports(a, b, a.checkpoints);
}

} // verus!

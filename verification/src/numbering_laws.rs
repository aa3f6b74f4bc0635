//! What holds of the numbers and the public values that the shards of a run get.
use vstd::prelude::*;

use crate::batches::{law_batches_keep_pairs, unbatched};
use crate::schedule::{Batch, Run};
use crate::shards::{
    closing_shards, execution_closed, execution_stamped, numbered, values_after_closing,
    values_after_execution, with_values,
};
use crate::values::{Layout, PublicValues, Record};

verus! {

/// To give records other public values changes nothing else: there are as many of them, in the same
/// order, with the same events.
pub proof fn law_with_values<L: Layout, P>(
    records: Seq<Record<L, P>>,
    values: spec_fn(int) -> PublicValues<L>,
)
    ensures
        with_values(records, values).len() == records.len(),
        forall|i: int|
            0 <= i < records.len() ==> {
                &&& (#[trigger] with_values(records, values)[i]).public_values == values(i)
                &&& with_values(records, values)[i].events == records[i].events
            },
{
}

/// A run that is proved in one go has its records as shards one, two and so on, modulo two to the
/// power of thirty-two, whatever numbers they had. All else in them stays as it was.
pub proof fn law_numbered<L: Layout, P>(records: Seq<Record<L, P>>, i: int)
    requires
        0 <= i < records.len(),
    ensures
        numbered(records).len() == records.len(),
        ({
            let before = records[i].public_values;
            let values = numbered(records)[i].public_values;
            &&& values.shard == (i + 1) % 0x1_0000_0000
            &&& values.execution_shard == before.execution_shard
            &&& values.start_pc == before.start_pc
            &&& values.next_pc == before.next_pc
            &&& values.committed_value_digest == before.committed_value_digest
            &&& values.deferred_proofs_digest == before.deferred_proofs_digest
            &&& values.previous_init_addr_bits == before.previous_init_addr_bits
            &&& values.last_init_addr_bits == before.last_init_addr_bits
            &&& values.previous_finalize_addr_bits == before.previous_finalize_addr_bits
            &&& values.last_finalize_addr_bits == before.last_finalize_addr_bits
            &&& values.rest == before.rest
            &&& numbered(records)[i].events == records[i].events
        }),
{
}

/// The numbers that records had before do not matter: records that differ in nothing but their
/// numbers are the same once they are numbered.
pub proof fn law_numbering_forgets<L: Layout, P>(
    records: Seq<Record<L, P>>,
    shards: spec_fn(int) -> u32,
)
    ensures
        numbered(
            Seq::new(
                records.len(),
                |i: int|
                    Record {
                        public_values: PublicValues {
                            shard: shards(i),
                            ..records[i].public_values
                        },
                        events: records[i].events,
                    },
            ),
        ) == numbered(records),
{
    let others = Seq::new(
        records.len(),
        |i: int|
            Record {
                public_values: PublicValues { shard: shards(i), ..records[i].public_values },
                events: records[i].events,
            },
    );
    assert(numbered(others) =~= numbered(records));
}

/// The execution shards of a checkpoint are numbered one after the other, and keep what they know
/// of their own execution. None of them initialises or finalises addresses: of those they say what
/// the shard before the checkpoint said.
pub proof fn law_execution_shards<L: Layout, P>(
    state: PublicValues<L>,
    records: Seq<Record<L, P>>,
    i: int,
)
    requires
        0 <= i < records.len(),
        state.shard + records.len() <= u32::MAX,
    ensures
        execution_stamped(state, records).len() == records.len(),
        ({
            let own = records[i].public_values;
            let values = execution_stamped(state, records)[i].public_values;
            &&& values.shard == state.shard + i + 1
            &&& values.execution_shard == own.execution_shard
            &&& values.start_pc == own.start_pc
            &&& values.next_pc == own.next_pc
            &&& values.committed_value_digest == own.committed_value_digest
            &&& values.deferred_proofs_digest == own.deferred_proofs_digest
            &&& values.previous_init_addr_bits == state.previous_init_addr_bits
            &&& values.last_init_addr_bits == state.last_init_addr_bits
            &&& values.previous_finalize_addr_bits == state.previous_finalize_addr_bits
            &&& values.last_finalize_addr_bits == state.last_finalize_addr_bits
            &&& values.rest == state.rest
            &&& execution_stamped(state, records)[i].events == records[i].events
        }),
{
}

/// The public values that end the execution shards of a checkpoint: those of the last of them, or
/// of the shard before the checkpoint if there is none.
pub open spec fn last_executed<L: Layout, P>(
    state: PublicValues<L>,
    records: Seq<Record<L, P>>,
) -> PublicValues<L> {
    if records.len() == 0 {
        state
    } else {
        records.last().public_values
    }
}

/// The deferred shards of a checkpoint are numbered on from its execution shards. They execute
/// nothing: they start and end where the last execution shard ended, and repeat its digests. They
/// belong to the execution shard after it, or to its own if the program has ended.
pub proof fn law_deferred_shards<L: Layout, P>(
    state: PublicValues<L>,
    records: Seq<Record<L, P>>,
    done: bool,
    deferred: Seq<Record<L, P>>,
    i: int,
)
    requires
        0 <= i < deferred.len(),
        state.shard + records.len() + deferred.len() <= u32::MAX,
        !done ==> last_executed(state, records).execution_shard < u32::MAX,
    ensures
        closing_shards(values_after_execution(state, records), done, deferred).len()
            == deferred.len(),
        ({
            let last = last_executed(state, records);
            let own = deferred[i].public_values;
            let values = closing_shards(
                values_after_execution(state, records),
                done,
                deferred,
            )[i].public_values;
            &&& values.shard == state.shard + records.len() + i + 1
            &&& values.execution_shard == last.execution_shard + if done {
                0int
            } else {
                1int
            }
            &&& values.start_pc == last.next_pc
            &&& values.next_pc == last.next_pc
            &&& values.committed_value_digest == last.committed_value_digest
            &&& values.deferred_proofs_digest == last.deferred_proofs_digest
            &&& values.previous_init_addr_bits == own.previous_init_addr_bits
            &&& values.last_init_addr_bits == own.last_init_addr_bits
            &&& values.previous_finalize_addr_bits == own.previous_finalize_addr_bits
            &&& values.last_finalize_addr_bits == own.last_finalize_addr_bits
            &&& values.rest == state.rest
            &&& closing_shards(values_after_execution(state, records), done, deferred)[i].events
                == deferred[i].events
        }),
{
}

/// The public values once the execution shards of a checkpoint are numbered are those of the last of
/// them: what it knows of its own execution, and of the rest what was there before. Without an
/// execution shard nothing changes.
pub proof fn law_values_after_execution<L: Layout, P>(
    state: PublicValues<L>,
    records: Seq<Record<L, P>>,
)
    requires
        state.shard + records.len() <= u32::MAX,
    ensures
        records.len() == 0 ==> values_after_execution(state, records) == state,
        records.len() > 0 ==> {
            let own = records[records.len() - 1].public_values;
            let values = values_after_execution(state, records);
            &&& values.shard == state.shard + records.len()
            &&& values.execution_shard == own.execution_shard
            &&& values.start_pc == own.start_pc
            &&& values.next_pc == own.next_pc
            &&& values.committed_value_digest == own.committed_value_digest
            &&& values.deferred_proofs_digest == own.deferred_proofs_digest
            &&& values.previous_init_addr_bits == state.previous_init_addr_bits
            &&& values.last_init_addr_bits == state.last_init_addr_bits
            &&& values.previous_finalize_addr_bits == state.previous_finalize_addr_bits
            &&& values.last_finalize_addr_bits == state.last_finalize_addr_bits
            &&& values.rest == state.rest
        },
{
}

/// The deferred shards of a checkpoint, given the public values once its execution shards are
/// numbered: they go on from there, execute nothing, and have their own addresses. The public values
/// afterwards are those of the last of them; without a deferred shard, only the execution shard is
/// counted, unless the program has ended.
pub proof fn law_values_after_closing<L: Layout, P>(
    state: PublicValues<L>,
    done: bool,
    deferred: Seq<Record<L, P>>,
)
    requires
        state.shard + deferred.len() <= u32::MAX,
        !done ==> state.execution_shard < u32::MAX,
    ensures
        ({
            let closed = PublicValues {
                execution_shard: if done {
                    state.execution_shard
                } else {
                    (state.execution_shard + 1) as u32
                },
                ..state
            };
            let shards = closing_shards(state, done, deferred);
            &&& execution_closed(state, done) == closed
            &&& shards.len() == deferred.len()
            &&& forall|i: int|
                0 <= i < deferred.len() ==> {
                    let own = deferred[i].public_values;
                    &&& (#[trigger] shards[i]).events == deferred[i].events
                    &&& shards[i].public_values == (PublicValues {
                        shard: (state.shard + i + 1) as u32,
                        start_pc: state.next_pc,
                        previous_init_addr_bits: own.previous_init_addr_bits,
                        last_init_addr_bits: own.last_init_addr_bits,
                        previous_finalize_addr_bits: own.previous_finalize_addr_bits,
                        last_finalize_addr_bits: own.last_finalize_addr_bits,
                        ..closed
                    })
                }
            &&& values_after_closing(state, done, deferred) == if deferred.len() == 0 {
                closed
            } else {
                shards[deferred.len() - 1].public_values
            }
        }),
{
}

/// A checkpoint uses up one number for each of its execution shards and deferred shards.
pub proof fn law_numbers_used<L: Layout, P>(
    state: PublicValues<L>,
    records: Seq<Record<L, P>>,
    done: bool,
    deferred: Seq<Record<L, P>>,
)
    requires
        state.shard + records.len() + deferred.len() <= u32::MAX,
    ensures
        values_after_execution(state, records).shard == state.shard + records.len(),
        values_after_closing(values_after_execution(state, records), done, deferred).shard
            == state.shard + records.len() + deferred.len(),
{
}

/// Two sequences of records have the same public values, in the same order.
pub open spec fn same_values<L: Layout, P>(
    left: Seq<Record<L, P>>,
    right: Seq<Record<L, P>>,
) -> bool {
    &&& left.len() == right.len()
    &&& forall|i: int|
        0 <= i < left.len() ==> (#[trigger] left[i]).public_values == right[i].public_values
}

/// What the stages outside the numbering do to records changes their events only.
pub open spec fn keeps_values<L: Layout, P, T, X, F>(run: Run<L, P, T, X, F>) -> bool {
    &&& forall|held: X, records: Seq<Record<L, P>>|
        same_values(records, (#[trigger] (run.defer)(held, records)).1)
    &&& forall|records: Seq<Record<L, P>>|
        same_values(records, #[trigger] (run.depend)(records))
    &&& forall|record: Record<L, P>|
        (#[trigger] (run.fix)(record)).public_values == record.public_values
}

proof fn lemma_shard_numbers<L: Layout, P, T, X, F>(run: Run<L, P, T, X, F>, k: nat)
    requires
        keeps_values(run),
        run.values.shard + run.all_shards(k).len() <= u32::MAX,
    ensures
        run.before(k).0.shard == run.values.shard + run.all_shards(k).len(),
        forall|i: int|
            0 <= i < run.all_shards(k).len() ==> (#[trigger] run.all_shards(
                k,
            )[i]).public_values.shard == run.values.shard + i + 1,
    decreases k,
{
    if k > 0 {
        let j = (k - 1) as nat;
        let shards = run.shards(j);
        let before = run.all_shards(j);
        assert(run.all_shards(k) == before + shards);
        lemma_shard_numbers(run, j);
        let state = run.before(j).0;
        let traced = (run.trace)(j);
        let deferred = run.deferred(j);
        let closed = run.closed(j);
        assert(same_values(run.stamped(j), run.lightened(j)));
        assert(same_values(closed, (run.depend)(closed)));
        assert(closed.len() == traced.len() + deferred.len());
        law_numbers_used(state, traced, run.is_last(j), deferred);
        assert forall|i: int| 0 <= i < run.all_shards(k).len() implies (#[trigger] run.all_shards(
            k,
        )[i]).public_values.shard == run.values.shard + i + 1 by {
            if i < before.len() {
                assert(run.all_shards(k)[i] == before[i]);
            } else {
                let at = i - before.len();
                assert(run.all_shards(k)[i] == shards[at]);
                assert(shards[at].public_values == (run.depend)(closed)[at].public_values);
                assert(closed[at].public_values == (run.depend)(closed)[at].public_values);
                if at < traced.len() {
                    assert(run.stamped(j)[at].public_values == run.lightened(
                        j,
                    )[at].public_values);
                }
            }
        }
    }
}

/// The shards of a run are numbered one after the other, over all checkpoints, from the number
/// after the one that the run starts from.
pub proof fn law_shard_numbers<L: Layout, P, T, X, F>(run: Run<L, P, T, X, F>, i: int)
    requires
        keeps_values(run),
        run.values.shard + run.all_shards(run.checkpoints).len() <= u32::MAX,
        0 <= i < run.all_shards(run.checkpoints).len(),
    ensures
        run.all_shards(run.checkpoints)[i].public_values.shard == run.values.shard + i + 1,
{
    lemma_shard_numbers(run, run.checkpoints);
}

/// Where the addresses that the shards before checkpoint `k` end with come from: the last deferred
/// shard before it, or the values that the run starts from if there is none.
pub open spec fn address_source<L: Layout, P, T, X, F>(
    run: Run<L, P, T, X, F>,
    k: nat,
) -> PublicValues<L>
    decreases k,
{
    if k == 0 {
        run.values
    } else {
        let deferred = run.deferred((k - 1) as nat);
        if deferred.len() > 0 {
            deferred.last().public_values
        } else {
            address_source(run, (k - 1) as nat)
        }
    }
}

/// Where the program counter and the digests that the shards before checkpoint `k` end with come
/// from: the last execution shard before it, or the values that the run starts from if there is
/// none.
pub open spec fn execution_source<L: Layout, P, T, X, F>(
    run: Run<L, P, T, X, F>,
    k: nat,
) -> PublicValues<L>
    decreases k,
{
    if k == 0 {
        run.values
    } else {
        let traced = (run.trace)((k - 1) as nat);
        if traced.len() > 0 {
            traced.last().public_values
        } else {
            execution_source(run, (k - 1) as nat)
        }
    }
}

/// The values that checkpoint `k` goes on from: the addresses of the last deferred shard before it,
/// the program counter and the digests of the last execution shard before it, and for the rest what
/// the run started with.
pub proof fn law_values_before<L: Layout, P, T, X, F>(run: Run<L, P, T, X, F>, k: nat)
    ensures
        ({
            let values = run.before(k).0;
            let addresses = address_source(run, k);
            let executed = execution_source(run, k);
            &&& values.previous_init_addr_bits == addresses.previous_init_addr_bits
            &&& values.last_init_addr_bits == addresses.last_init_addr_bits
            &&& values.previous_finalize_addr_bits == addresses.previous_finalize_addr_bits
            &&& values.last_finalize_addr_bits == addresses.last_finalize_addr_bits
            &&& values.next_pc == executed.next_pc
            &&& values.committed_value_digest == executed.committed_value_digest
            &&& values.deferred_proofs_digest == executed.deferred_proofs_digest
            &&& values.rest == run.values.rest
        }),
    decreases k,
{
    if k > 0 {
        law_values_before(run, (k - 1) as nat);
    }
}

proof fn lemma_values_kept<L: Layout, P, T, X, F>(run: Run<L, P, T, X, F>, k: nat, i: int)
    requires
        keeps_values(run),
        0 <= i < (run.trace)(k).len() + run.deferred(k).len(),
    ensures
        run.shards(k).len() == (run.trace)(k).len() + run.deferred(k).len(),
        run.shards(k)[i].public_values == if i < (run.trace)(k).len() {
            run.stamped(k)[i].public_values
        } else {
            closing_shards(run.values_stamped(k), run.is_last(k), run.deferred(k))[i - (run.trace)(
                k,
            ).len()].public_values
        },
{
    let closed = run.closed(k);
    assert(same_values(run.stamped(k), run.lightened(k)));
    assert(same_values(closed, (run.depend)(closed)));
    assert(closed[i].public_values == (run.depend)(closed)[i].public_values);
    if i < (run.trace)(k).len() {
        assert(run.stamped(k)[i].public_values == run.lightened(k)[i].public_values);
    }
}

/// An execution shard as it is proved says of its execution what its own record says: the number of
/// its execution shard, where it starts and ends, and its digests. Of the addresses it says what
/// the nearest deferred shard before it says.
pub proof fn law_execution_shards_of_run<L: Layout, P, T, X, F>(
    run: Run<L, P, T, X, F>,
    k: nat,
    i: int,
)
    requires
        keeps_values(run),
        run.values.shard + run.all_shards(k + 1).len() <= u32::MAX,
        0 <= i < (run.trace)(k).len(),
    ensures
        i < run.shards(k).len(),
        ({
            let own = (run.trace)(k)[i].public_values;
            let addresses = address_source(run, k);
            let values = run.shards(k)[i].public_values;
            &&& values.shard == run.values.shard + run.all_shards(k).len() + i + 1
            &&& values.execution_shard == own.execution_shard
            &&& values.start_pc == own.start_pc
            &&& values.next_pc == own.next_pc
            &&& values.committed_value_digest == own.committed_value_digest
            &&& values.deferred_proofs_digest == own.deferred_proofs_digest
            &&& values.previous_init_addr_bits == addresses.previous_init_addr_bits
            &&& values.last_init_addr_bits == addresses.last_init_addr_bits
            &&& values.previous_finalize_addr_bits == addresses.previous_finalize_addr_bits
            &&& values.last_finalize_addr_bits == addresses.last_finalize_addr_bits
            &&& values.rest == run.values.rest
        }),
{
    lemma_values_kept(run, k, i);
    assert(run.all_shards(k + 1) == run.all_shards(k) + run.shards(k));
    lemma_shard_numbers(run, k);
    law_values_before(run, k);
    law_execution_shards(run.before(k).0, (run.trace)(k), i);
}

/// A deferred shard as it is proved says of the addresses what its own record says. It starts and
/// ends where the nearest execution shard before it ends, and repeats its digests. It belongs to
/// the execution shard after the last one, or to the last one if the program has ended.
pub proof fn law_deferred_shards_of_run<L: Layout, P, T, X, F>(
    run: Run<L, P, T, X, F>,
    k: nat,
    i: int,
)
    requires
        keeps_values(run),
        run.values.shard + run.all_shards(k + 1).len() <= u32::MAX,
        !run.is_last(k) ==> last_executed(run.before(k).0, (run.trace)(k)).execution_shard
            < u32::MAX,
        0 <= i < run.deferred(k).len(),
    ensures
        (run.trace)(k).len() + i < run.shards(k).len(),
        ({
            let own = run.deferred(k)[i].public_values;
            let executed = execution_source(run, k + 1);
            let last = last_executed(run.before(k).0, (run.trace)(k));
            let at = (run.trace)(k).len() + i;
            let values = run.shards(k)[at].public_values;
            &&& values.shard == run.values.shard + run.all_shards(k).len() + at + 1
            &&& values.execution_shard == last.execution_shard + if run.is_last(k) {
                0int
            } else {
                1int
            }
            &&& values.start_pc == executed.next_pc
            &&& values.next_pc == executed.next_pc
            &&& values.committed_value_digest == executed.committed_value_digest
            &&& values.deferred_proofs_digest == executed.deferred_proofs_digest
            &&& values.previous_init_addr_bits == own.previous_init_addr_bits
            &&& values.last_init_addr_bits == own.last_init_addr_bits
            &&& values.previous_finalize_addr_bits == own.previous_finalize_addr_bits
            &&& values.last_finalize_addr_bits == own.last_finalize_addr_bits
            &&& values.rest == run.values.rest
        }),
{
    let traced = (run.trace)(k);
    let deferred = run.deferred(k);
    lemma_values_kept(run, k, traced.len() + i);
    assert(run.all_shards(k + 1) == run.all_shards(k) + run.shards(k));
    lemma_shard_numbers(run, k);
    law_values_before(run, k);
    law_deferred_shards(run.before(k).0, traced, run.is_last(k), deferred, i);
}

proof fn lemma_proofs_first<L: Layout, P, T, X, F>(
    run: Run<L, P, T, X, F>,
    batches: Seq<Batch<L, P, T>>,
)
    requires
        batches.len() > 0,
    ensures
        run.proofs(batches) == run.batch_proofs(batches.first()) + run.proofs(
            batches.drop_first(),
        ),
    decreases batches.len(),
{
    if batches.len() == 1 {
        assert(batches.drop_last() =~= seq![]);
        assert(batches.drop_first() =~= seq![]);
        assert(run.proofs(batches) =~= run.batch_proofs(batches.first()) + run.proofs(
            batches.drop_first(),
        ));
    } else {
        lemma_proofs_first(run, batches.drop_last());
        assert(batches.drop_last().drop_first() =~= batches.drop_first().drop_last());
        assert(run.proofs(batches) =~= run.batch_proofs(batches.first()) + run.proofs(
            batches.drop_first(),
        ));
    }
}

proof fn lemma_proofs_unbatched<L: Layout, P, T, X, F>(
    run: Run<L, P, T, X, F>,
    batches: Seq<Batch<L, P, T>>,
)
    ensures
        run.proofs(batches) == unbatched(batches).map_values(
            |shard: (Record<L, P>, T)| (run.open)(shard.0, shard.1),
        ),
    decreases batches.len(),
{
    let open = |shard: (Record<L, P>, T)| (run.open)(shard.0, shard.1);
    if batches.len() == 0 {
        assert(run.proofs(batches) =~= unbatched(batches).map_values(open));
    } else {
        lemma_proofs_first(run, batches);
        lemma_proofs_unbatched(run, batches.drop_first());
        assert(run.proofs(batches) =~= unbatched(batches).map_values(open));
    }
}

proof fn lemma_proofs_concatenate<L: Layout, P, T, X, F>(
    run: Run<L, P, T, X, F>,
    left: Seq<Batch<L, P, T>>,
    right: Seq<Batch<L, P, T>>,
)
    ensures
        run.proofs(left + right) == run.proofs(left) + run.proofs(right),
    decreases right.len(),
{
    if right.len() == 0 {
        assert(left + right =~= left);
        assert(run.proofs(left + right) =~= run.proofs(left) + run.proofs(right));
    } else {
        lemma_proofs_concatenate(run, left, right.drop_last());
        assert((left + right).drop_last() =~= left + right.drop_last());
        assert(run.proofs(left + right) =~= run.proofs(left) + run.proofs(right));
    }
}

/// The proofs of a run are those of its shards, one for each, in the order of their numbers and
/// each made with the shard's own trace. How many shards make a batch does not matter.
pub proof fn law_one_proof_per_shard<L: Layout, P, T, X, F>(run: Run<L, P, T, X, F>, k: nat)
    ensures
        run.proofs(run.all_batches(k)) == run.all_shards(k).map_values(
            |record: Record<L, P>| (run.open)(record, (run.generate)(record)),
        ),
    decreases k,
{
    let prove = |record: Record<L, P>| (run.open)(record, (run.generate)(record));
    if k == 0 {
        assert(run.proofs(run.all_batches(k)) =~= run.all_shards(k).map_values(prove));
    } else {
        let j = (k - 1) as nat;
        let shards = run.shards(j);
        let traces = shards.map_values(run.generate);
        law_one_proof_per_shard(run, j);
        lemma_proofs_concatenate(run, run.all_batches(j), run.batches(j));
        lemma_proofs_unbatched(run, run.batches(j));
        law_batches_keep_pairs(shards, traces, run.batch_size);
        assert(run.proofs(run.batches(j)) =~= shards.map_values(prove));
        assert(run.all_shards(k).map_values(prove) =~= run.all_shards(j).map_values(prove)
            + shards.map_values(prove));
    }
}

} // verus!

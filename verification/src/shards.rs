//! Numbering the shards of a run and filling in their public values.
use vstd::prelude::*;

use crate::values::{Layout, PublicValues, Record};

verus! {

/// `records` with the public values of the record at `i` replaced by `values(i)`.
pub open spec fn with_values<L: Layout, P>(
    records: Seq<Record<L, P>>,
    values: spec_fn(int) -> PublicValues<L>,
) -> Seq<Record<L, P>> {
    Seq::new(
        records.len(),
        |i: int| Record { public_values: values(i), events: records[i].events },
    )
}

/// The public values of an execution shard that gets the number `shard`: what the shard knows of
/// its own execution, and `state` for the rest.
pub open spec fn execution_values<L: Layout>(
    state: PublicValues<L>,
    own: PublicValues<L>,
    shard: u32,
) -> PublicValues<L> {
    PublicValues {
        shard,
        execution_shard: own.execution_shard,
        start_pc: own.start_pc,
        next_pc: own.next_pc,
        committed_value_digest: own.committed_value_digest,
        deferred_proofs_digest: own.deferred_proofs_digest,
        ..state
    }
}

/// The execution shards `records`, numbered on from `state`.
pub open spec fn execution_stamped<L: Layout, P>(
    state: PublicValues<L>,
    records: Seq<Record<L, P>>,
) -> Seq<Record<L, P>> {
    with_values(
        records,
        |i: int|
            execution_values(state, records[i].public_values, (state.shard + i + 1) as u32),
    )
}

/// The public values of a deferred shard that gets the number `shard`: the addresses that it
/// initialises and finalises, no instruction executed, and `state` for the rest.
pub open spec fn deferred_values<L: Layout>(
    state: PublicValues<L>,
    own: PublicValues<L>,
    shard: u32,
) -> PublicValues<L> {
    PublicValues {
        shard,
        start_pc: state.next_pc,
        previous_init_addr_bits: own.previous_init_addr_bits,
        last_init_addr_bits: own.last_init_addr_bits,
        previous_finalize_addr_bits: own.previous_finalize_addr_bits,
        last_finalize_addr_bits: own.last_finalize_addr_bits,
        ..state
    }
}

/// The deferred shards `records`, numbered on from `state`.
pub open spec fn deferred_stamped<L: Layout, P>(
    state: PublicValues<L>,
    records: Seq<Record<L, P>>,
) -> Seq<Record<L, P>> {
    with_values(
        records,
        |i: int|
            deferred_values(state, records[i].public_values, (state.shard + i + 1) as u32),
    )
}

/// The state after the shards `stamped`: the public values of the last of them, or `state` if
/// there is none.
pub open spec fn state_after<L: Layout, P>(
    state: PublicValues<L>,
    stamped: Seq<Record<L, P>>,
) -> PublicValues<L> {
    if stamped.len() == 0 {
        state
    } else {
        stamped.last().public_values
    }
}

/// The state once the execution shards of a checkpoint are numbered: the deferred shards that
/// follow belong to the next execution shard, unless the execution is over.
pub open spec fn execution_closed<L: Layout>(state: PublicValues<L>, done: bool) -> PublicValues<
    L,
> {
    if done {
        state
    } else {
        PublicValues { execution_shard: (state.execution_shard + 1) as u32, ..state }
    }
}

/// The state once the execution shards `records` of a checkpoint are numbered.
pub open spec fn values_after_execution<L: Layout, P>(
    state: PublicValues<L>,
    records: Seq<Record<L, P>>,
) -> PublicValues<L> {
    state_after(state, execution_stamped(state, records))
}

/// The deferred shards that are ready with a checkpoint, numbered on from `state`, the state once
/// its execution shards are numbered.
pub open spec fn closing_shards<L: Layout, P>(
    state: PublicValues<L>,
    done: bool,
    deferred: Seq<Record<L, P>>,
) -> Seq<Record<L, P>> {
    deferred_stamped(execution_closed(state, done), deferred)
}

/// The state once all shards of a checkpoint are numbered.
pub open spec fn values_after_closing<L: Layout, P>(
    state: PublicValues<L>,
    done: bool,
    deferred: Seq<Record<L, P>>,
) -> PublicValues<L> {
    state_after(execution_closed(state, done), closing_shards(state, done, deferred))
}

/// The records of a run that is proved in one go, numbered: the record at `i` is shard `i + 1`, modulo
/// two to the power of thirty-two.
pub open spec fn numbered<L: Layout, P>(records: Seq<Record<L, P>>) -> Seq<Record<L, P>> {
    with_values(
        records,
        |i: int|
            PublicValues {
                shard: ((i + 1) % 0x1_0000_0000) as u32,
                ..records[i].public_values
            },
    )
}

/// Numbers the records of a run that is proved in one go: the record at `i` becomes shard `i + 1`.
/// The number is kept modulo two to the power of thirty-two.
pub fn number_shards<L: Layout, P>(records: &mut Vec<Record<L, P>>)
    ensures
        final(records)@ == numbered(old(records)@),
        final(records)@.len() == old(records)@.len(),
        forall|i: int|
            0 <= i < old(records)@.len() ==> {
                let before = old(records)@[i].public_values;
                let values = (#[trigger] final(records)@[i]).public_values;
                &&& values.shard == (i + 1) % 0x1_0000_0000
                &&& values.execution_shard == before.execution_shard
                &&& values.start_pc == before.start_pc
                &&& values.next_pc == before.next_pc
                &&& values.committed_value_digest == before.committed_value_digest
                &&& values.deferred_proofs_digest == before.deferred_proofs_digest
                &&& values.previous_init_addr_bits == before.previous_init_addr_bits
                &&& values.last_init_addr_bits == before.last_init_addr_bits
                &&& values.previous_finalize_addr_bits == before.previous_finalize_addr_bits
                &&& values.last_finalize_addr_bits == before.last_finalize_addr_bits
                &&& values.rest == before.rest
                &&& final(records)@[i].events == old(records)@[i].events
            },
{
    let mut i: usize = 0;
    while i < records.len()
        invariant
            i <= records.len(),
            records.len() == old(records).len(),
            forall|j: int|
                0 <= j < i ==> #[trigger] records@[j] == (Record {
                    public_values: PublicValues {
                        shard: ((j + 1) % 0x1_0000_0000) as u32,
                        ..old(records)@[j].public_values
                    },
                    events: old(records)@[j].events,
                }),
            forall|j: int| i <= j < records.len() ==> #[trigger] records@[j] == old(records)@[j],
        decreases records.len() - i,
    {
        let number: u64 = (i + 1) as u64;
        assert(number as u32 == number % 0x1_0000_0000) by (bit_vector);
        records[i].public_values.shard = number as u32;
        i = i + 1;
    }
}

/// Numbers the execution shards of a checkpoint on from `state`, and moves `state` on to the last
/// of them.
pub fn stamp_execution_shards<L: Layout, P>(
    state: &mut PublicValues<L>,
    records: &mut Vec<Record<L, P>>,
)
    requires
        old(state).shard + old(records)@.len() <= u32::MAX,
    ensures
        final(records)@ == execution_stamped(*old(state), old(records)@),
        *final(state) == state_after(*old(state), final(records)@),
        final(records)@.len() == old(records)@.len(),
        forall|i: int|
            0 <= i < old(records)@.len() ==> {
                let own = old(records)@[i].public_values;
                let values = (#[trigger] final(records)@[i]).public_values;
                &&& values.shard == old(state).shard + i + 1
                &&& values.execution_shard == own.execution_shard
                &&& values.start_pc == own.start_pc
                &&& values.next_pc == own.next_pc
                &&& values.committed_value_digest == own.committed_value_digest
                &&& values.deferred_proofs_digest == own.deferred_proofs_digest
                &&& values.previous_init_addr_bits == old(state).previous_init_addr_bits
                &&& values.last_init_addr_bits == old(state).last_init_addr_bits
                &&& values.previous_finalize_addr_bits == old(state).previous_finalize_addr_bits
                &&& values.last_finalize_addr_bits == old(state).last_finalize_addr_bits
                &&& values.rest == old(state).rest
                &&& final(records)@[i].events == old(records)@[i].events
            },
        *final(state) == if old(records)@.len() == 0 {
            *old(state)
        } else {
            final(records)@[old(records)@.len() - 1].public_values
        },
{
    let mut i: usize = 0;
    while i < records.len()
        invariant
            i <= records.len(),
            records.len() == old(records).len(),
            old(state).shard + old(records)@.len() <= u32::MAX,
            forall|j: int|
                0 <= j < i ==> #[trigger] records@[j] == execution_stamped(
                    *old(state),
                    old(records)@,
                )[j],
            forall|j: int| i <= j < records.len() ==> #[trigger] records@[j] == old(records)@[j],
            *state == state_after(*old(state), records@.take(i as int)),
        decreases records.len() - i,
    {
        let own: PublicValues<L> = records[i].public_values;
        state.shard = state.shard + 1;
        state.execution_shard = own.execution_shard;
        state.start_pc = own.start_pc;
        state.next_pc = own.next_pc;
        state.committed_value_digest = own.committed_value_digest;
        state.deferred_proofs_digest = own.deferred_proofs_digest;
        records[i].public_values = *state;
        i = i + 1;
    }
    assert(records@.take(i as int) =~= records@);
}

/// Counts the execution shard that the deferred shards of a checkpoint belong to: one more than
/// before, unless the execution is over.
pub fn close_execution_shard<L: Layout>(state: &mut PublicValues<L>, done: bool)
    requires
        !done ==> old(state).execution_shard < u32::MAX,
    ensures
        *final(state) == execution_closed(*old(state), done),
        *final(state) == (PublicValues {
            execution_shard: final(state).execution_shard,
            ..*old(state)
        }),
        final(state).execution_shard == old(state).execution_shard + if done {
            0int
        } else {
            1int
        },
{
    if !done {
        state.execution_shard = state.execution_shard + 1;
    }
}

/// Numbers the deferred shards of a checkpoint on from `state`, and moves `state` on to the last
/// of them.
pub fn stamp_deferred_shards<L: Layout, P>(
    state: &mut PublicValues<L>,
    records: &mut Vec<Record<L, P>>,
)
    requires
        old(state).shard + old(records)@.len() <= u32::MAX,
    ensures
        final(records)@ == deferred_stamped(*old(state), old(records)@),
        *final(state) == state_after(*old(state), final(records)@),
        final(records)@.len() == old(records)@.len(),
        forall|i: int|
            0 <= i < old(records)@.len() ==> {
                let own = old(records)@[i].public_values;
                let values = (#[trigger] final(records)@[i]).public_values;
                &&& values.shard == old(state).shard + i + 1
                &&& values.execution_shard == old(state).execution_shard
                &&& values.start_pc == old(state).next_pc
                &&& values.next_pc == old(state).next_pc
                &&& values.committed_value_digest == old(state).committed_value_digest
                &&& values.deferred_proofs_digest == old(state).deferred_proofs_digest
                &&& values.previous_init_addr_bits == own.previous_init_addr_bits
                &&& values.last_init_addr_bits == own.last_init_addr_bits
                &&& values.previous_finalize_addr_bits == own.previous_finalize_addr_bits
                &&& values.last_finalize_addr_bits == own.last_finalize_addr_bits
                &&& values.rest == old(state).rest
                &&& final(records)@[i].events == old(records)@[i].events
            },
        *final(state) == if old(records)@.len() == 0 {
            *old(state)
        } else {
            final(records)@[old(records)@.len() - 1].public_values
        },
{
    let mut i: usize = 0;
    while i < records.len()
        invariant
            i <= records.len(),
            records.len() == old(records).len(),
            old(state).shard + old(records)@.len() <= u32::MAX,
            forall|j: int|
                0 <= j < i ==> #[trigger] records@[j] == deferred_stamped(
                    *old(state),
                    old(records)@,
                )[j],
            forall|j: int| i <= j < records.len() ==> #[trigger] records@[j] == old(records)@[j],
            *state == state_after(*old(state), records@.take(i as int)),
        decreases records.len() - i,
    {
        let own: PublicValues<L> = records[i].public_values;
        state.shard = state.shard + 1;
        state.previous_init_addr_bits = own.previous_init_addr_bits;
        state.last_init_addr_bits = own.last_init_addr_bits;
        state.previous_finalize_addr_bits = own.previous_finalize_addr_bits;
        state.last_finalize_addr_bits = own.last_finalize_addr_bits;
        state.start_pc = state.next_pc;
        records[i].public_values = *state;
        i = i + 1;
    }
    assert(records@.take(i as int) =~= records@);
}

} // verus!

//! What the trace generation workers share: the turns that they take, and the public values of the
//! shard that was numbered last.
use vstd::prelude::*;

use crate::shards::{
    close_execution_shard, closing_shards, execution_stamped, stamp_deferred_shards,
    stamp_execution_shards, values_after_closing, values_after_execution,
};
use crate::turns::TurnBasedSync;
use crate::values::{Layout, PublicValues, Record};

verus! {

/// How far the checkpoint whose turn it is has got.
#[derive(Clone, Copy, PartialEq, Eq, Structural)]
pub enum Stage {
    /// None of its shards is numbered.
    Idle,
    /// Its execution shards are numbered.
    Stamped,
    /// All of its shards are numbered.
    Closed,
}

/// The state that the workers share.
pub struct Coordinator<L: Layout> {
    /// Whose turn it is to number shards.
    pub record_turn: TurnBasedSync,
    /// Whose turn it is to send batches.
    pub trace_turn: TurnBasedSync,
    pub stage: Stage,
    pub values: PublicValues<L>,
}

/// The model of a `Coordinator`.
pub struct CoordinatorView<L: Layout> {
    pub record_turn: nat,
    pub trace_turn: nat,
    pub stage: Stage,
    pub values: PublicValues<L>,
}

impl<L: Layout> View for Coordinator<L> {
    type V = CoordinatorView<L>;

    open spec fn view(&self) -> CoordinatorView<L> {
        CoordinatorView {
            record_turn: self.record_turn@,
            trace_turn: self.trace_turn@,
            stage: self.stage,
            values: self.values,
        }
    }
}

/// The shared state before anything was numbered or sent.
pub open spec fn initial_coordinator<L: Layout>(values: PublicValues<L>) -> CoordinatorView<L> {
    CoordinatorView { record_turn: 0, trace_turn: 0, stage: Stage::Idle, values }
}

/// Checkpoint `index` may number its execution shards.
pub open spec fn may_stamp<L: Layout>(shared: CoordinatorView<L>, index: nat) -> bool {
    shared.record_turn == index && shared.stage == Stage::Idle
}

/// The shared state once the execution shards `records` are numbered.
pub open spec fn after_stamping<L: Layout, P>(
    shared: CoordinatorView<L>,
    records: Seq<Record<L, P>>,
) -> CoordinatorView<L> {
    CoordinatorView {
        stage: Stage::Stamped,
        values: values_after_execution(shared.values, records),
        ..shared
    }
}

/// Checkpoint `index` may number its deferred shards.
pub open spec fn may_close<L: Layout>(shared: CoordinatorView<L>, index: nat) -> bool {
    shared.record_turn == index && shared.stage == Stage::Stamped
}

/// The shared state once the shards `deferred` are numbered.
pub open spec fn after_closing<L: Layout, P>(
    shared: CoordinatorView<L>,
    done: bool,
    deferred: Seq<Record<L, P>>,
) -> CoordinatorView<L> {
    CoordinatorView {
        stage: Stage::Closed,
        values: values_after_closing(shared.values, done, deferred),
        ..shared
    }
}

/// Checkpoint `index` may hand the turn to number shards on.
pub open spec fn may_finish_records<L: Layout>(shared: CoordinatorView<L>, index: nat) -> bool {
    shared.record_turn == index && shared.stage == Stage::Closed
}

/// The shared state once the turn to number shards is handed on.
pub open spec fn after_records<L: Layout>(shared: CoordinatorView<L>) -> CoordinatorView<L> {
    CoordinatorView { record_turn: shared.record_turn + 1, stage: Stage::Idle, ..shared }
}

/// Checkpoint `index` may send its batches.
pub open spec fn may_send<L: Layout>(shared: CoordinatorView<L>, index: nat) -> bool {
    shared.trace_turn == index && index < shared.record_turn
}

/// The shared state once the turn to send batches is handed on.
pub open spec fn after_traces<L: Layout>(shared: CoordinatorView<L>) -> CoordinatorView<L> {
    CoordinatorView { trace_turn: shared.trace_turn + 1, ..shared }
}

impl<L: Layout> Coordinator<L> {
    /// The shared state of a run that numbers its shards on from `values`.
    pub fn new(values: PublicValues<L>) -> (coordinator: Self)
        ensures
            coordinator@ == initial_coordinator(values),
            coordinator.record_turn.current_turn == 0,
            coordinator.trace_turn.current_turn == 0,
            coordinator.stage == Stage::Idle,
            coordinator.values == values,
    {
        Coordinator {
            record_turn: TurnBasedSync::new(),
            trace_turn: TurnBasedSync::new(),
            stage: Stage::Idle,
            values,
        }
    }

    /// Whether checkpoint `index` may number its execution shards. If not, its worker waits.
    pub fn is_record_turn(&self, index: usize) -> (come: bool)
        ensures
            come == may_stamp(self@, index as nat),
            come == (self.record_turn.current_turn == index && self.stage == Stage::Idle),
    {
        self.record_turn.is_turn(index) && self.stage == Stage::Idle
    }

    /// Whether checkpoint `index` may number its deferred shards.
    pub fn is_closing_turn(&self, index: usize) -> (come: bool)
        ensures
            come == may_close(self@, index as nat),
            come == (self.record_turn.current_turn == index && self.stage == Stage::Stamped),
    {
        self.record_turn.is_turn(index) && self.stage == Stage::Stamped
    }

    /// Whether checkpoint `index` may hand the turn to number shards on.
    pub fn is_finishing_turn(&self, index: usize) -> (come: bool)
        ensures
            come == may_finish_records(self@, index as nat),
            come == (self.record_turn.current_turn == index && self.stage == Stage::Closed),
    {
        self.record_turn.is_turn(index) && self.stage == Stage::Closed
    }

    /// Whether checkpoint `index` may send its batches. If not, its worker waits.
    pub fn is_trace_turn(&self, index: usize) -> (come: bool)
        ensures
            come == may_send(self@, index as nat),
            come == (self.trace_turn.current_turn == index && index
                < self.record_turn.current_turn),
    {
        self.trace_turn.is_turn(index) && index < self.record_turn.current_turn
    }

    /// Whether there are numbers left for `shards` more shards.
    pub fn has_room(&self, shards: usize) -> (room: bool)
        ensures
            room == (self@.values.shard + shards <= u32::MAX),
            room == (self.values.shard + shards <= u32::MAX),
    {
        shards as u64 <= (u32::MAX - self.values.shard) as u64
    }

    /// Numbers the execution shards of the checkpoint whose turn it is. Each keeps what it knows of
    /// its own execution; the addresses that it initialises and finalises are those of the shard
    /// before it.
    pub fn stamp_execution<P>(&mut self, index: usize, records: Vec<Record<L, P>>) -> (stamped: Vec<
        Record<L, P>,
    >)
        requires
            may_stamp(old(self)@, index as nat),
            old(self)@.values.shard + records@.len() <= u32::MAX,
        ensures
            final(self)@ == after_stamping(old(self)@, records@),
            stamped@ == execution_stamped(old(self)@.values, records@),
            final(self).record_turn == old(self).record_turn,
            final(self).trace_turn == old(self).trace_turn,
            final(self).stage == Stage::Stamped,
            stamped@.len() == records@.len(),
            forall|i: int|
                0 <= i < records@.len() ==> {
                    let own = records@[i].public_values;
                    &&& (#[trigger] stamped@[i]).events == records@[i].events
                    &&& stamped@[i].public_values == (PublicValues {
                        shard: (old(self).values.shard + i + 1) as u32,
                        execution_shard: own.execution_shard,
                        start_pc: own.start_pc,
                        next_pc: own.next_pc,
                        committed_value_digest: own.committed_value_digest,
                        deferred_proofs_digest: own.deferred_proofs_digest,
                        ..old(self).values
                    })
                },
            final(self).values == if records@.len() == 0 {
                old(self).values
            } else {
                stamped@[records@.len() - 1].public_values
            },
    {
        let mut stamped: Vec<Record<L, P>> = records;
        stamp_execution_shards(&mut self.values, &mut stamped);
        self.stage = Stage::Stamped;
        stamped
    }

    /// Numbers the deferred shards that are ready with the checkpoint whose turn it is, and puts
    /// them behind its execution shards.
    pub fn close<P>(
        &mut self,
        index: usize,
        done: bool,
        records: Vec<Record<L, P>>,
        deferred: Vec<Record<L, P>>,
    ) -> (closed: Vec<Record<L, P>>)
        requires
            may_close(old(self)@, index as nat),
            old(self)@.values.shard + deferred@.len() <= u32::MAX,
            !done ==> old(self)@.values.execution_shard < u32::MAX,
        ensures
            final(self)@ == after_closing(old(self)@, done, deferred@),
            closed@ == records@ + closing_shards(old(self)@.values, done, deferred@),
            final(self).record_turn == old(self).record_turn,
            final(self).trace_turn == old(self).trace_turn,
            final(self).stage == Stage::Closed,
            closed@.len() == records@.len() + deferred@.len(),
            closed@.take(records@.len() as int) == records@,
            ({
                let execution_shard = if done {
                    old(self).values.execution_shard
                } else {
                    (old(self).values.execution_shard + 1) as u32
                };
                &&& forall|i: int|
                    records@.len() <= i < closed@.len() ==> {
                        let own = deferred@[i - records@.len()];
                        &&& (#[trigger] closed@[i]).events == own.events
                        &&& closed@[i].public_values == (PublicValues {
                            shard: (old(self).values.shard + i - records@.len() + 1) as u32,
                            execution_shard,
                            start_pc: old(self).values.next_pc,
                            previous_init_addr_bits: own.public_values.previous_init_addr_bits,
                            last_init_addr_bits: own.public_values.last_init_addr_bits,
                            previous_finalize_addr_bits:
                                own.public_values.previous_finalize_addr_bits,
                            last_finalize_addr_bits: own.public_values.last_finalize_addr_bits,
                            ..old(self).values
                        })
                    }
                &&& final(self).values == if deferred@.len() == 0 {
                    PublicValues { execution_shard, ..old(self).values }
                } else {
                    closed@[closed@.len() - 1].public_values
                }
            }),
    {
        let mut closed: Vec<Record<L, P>> = records;
        let mut shards: Vec<Record<L, P>> = deferred;
        close_execution_shard(&mut self.values, done);
        stamp_deferred_shards(&mut self.values, &mut shards);
        closed.append(&mut shards);
        self.stage = Stage::Closed;
        closed
    }

    /// Hands the turn to number shards on to the next checkpoint.
    pub fn finish_records(&mut self, index: usize)
        requires
            may_finish_records(old(self)@, index as nat),
            index < usize::MAX,
        ensures
            final(self)@ == after_records(old(self)@),
            final(self).record_turn.current_turn == index + 1,
            final(self).trace_turn == old(self).trace_turn,
            final(self).stage == Stage::Idle,
            final(self).values == old(self).values,
    {
        self.record_turn.advance_turn();
        self.stage = Stage::Idle;
    }

    /// Hands the turn to send batches on to the next checkpoint.
    pub fn finish_traces(&mut self, index: usize)
        requires
            may_send(old(self)@, index as nat),
        ensures
            final(self)@ == after_traces(old(self)@),
            final(self).trace_turn.current_turn == index + 1,
            final(self).record_turn == old(self).record_turn,
            final(self).stage == old(self).stage,
            final(self).values == old(self).values,
    {
        self.trace_turn.advance_turn();
    }
}

/// The model of the shared state holds what the shared state holds.
pub proof fn law_coordinator_view<L: Layout>(coordinator: Coordinator<L>)
    ensures
        coordinator@.record_turn == coordinator.record_turn.current_turn,
        coordinator@.trace_turn == coordinator.trace_turn.current_turn,
        coordinator@.stage == coordinator.stage,
        coordinator@.values == coordinator.values,
{
}

/// A run starts with the turn of checkpoint zero, of whose shards none is numbered. No checkpoint
/// may send before its shards are numbered.
pub proof fn law_first_turn<L: Layout>(values: PublicValues<L>, index: nat)
    ensures
        may_stamp(initial_coordinator(values), index) <==> index == 0,
        !may_close(initial_coordinator(values), index),
        !may_finish_records(initial_coordinator(values), index),
        !may_send(initial_coordinator(values), index),
        initial_coordinator(values).values == values,
{
}

/// No two checkpoints have a turn at the same time, and the one that has it may do one thing only:
/// number its execution shards, number its deferred shards, or hand the turn on.
pub proof fn law_one_at_a_time<L: Layout>(shared: CoordinatorView<L>, i: nat, j: nat)
    ensures
        may_stamp(shared, i) || may_close(shared, i) || may_finish_records(shared, i) <==> i
            == shared.record_turn,
        may_stamp(shared, i) ==> !may_close(shared, j) && !may_finish_records(shared, j),
        may_close(shared, i) ==> !may_finish_records(shared, j),
        may_send(shared, i) && may_send(shared, j) ==> i == j,
        may_send(shared, i) ==> i < shared.record_turn,
{
}

/// A checkpoint whose turn it is numbers its execution shards, then its deferred shards, and then
/// hands the turn on to the next one. It may send from then on, and not before, once those before it
/// have sent. Numbering does not touch the turn to send.
pub proof fn law_turns_pass<L: Layout, P>(
    shared: CoordinatorView<L>,
    index: nat,
    records: Seq<Record<L, P>>,
    done: bool,
    deferred: Seq<Record<L, P>>,
)
    requires
        may_stamp(shared, index),
        shared.trace_turn <= index,
    ensures
        ({
            let stamped = after_stamping(shared, records);
            let closed = after_closing(stamped, done, deferred);
            let finished = after_records(closed);
            &&& !may_send(shared, index)
            &&& may_close(stamped, index) && !may_send(stamped, index)
            &&& may_finish_records(closed, index) && !may_send(closed, index)
            &&& may_stamp(finished, index + 1)
            &&& may_send(finished, index) <==> shared.trace_turn == index
            &&& stamped.trace_turn == shared.trace_turn
            &&& closed.trace_turn == shared.trace_turn
            &&& finished.trace_turn == shared.trace_turn
            &&& finished.values == closed.values
        }),
{
}

/// A checkpoint that has sent its batches lets the next one send, if its shards are numbered, and
/// touches nothing else.
pub proof fn law_sending_passes<L: Layout>(shared: CoordinatorView<L>, index: nat)
    requires
        may_send(shared, index),
    ensures
        !may_send(after_traces(shared), index),
        may_send(after_traces(shared), index + 1) <==> index + 1 < shared.record_turn,
        after_traces(shared).trace_turn == index + 1,
        after_traces(shared).record_turn == shared.record_turn,
        after_traces(shared).stage == shared.stage,
        after_traces(shared).values == shared.values,
{
}

} // verus!

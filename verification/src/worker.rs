//! A trace generation worker: it takes checkpoints to batches of shards that are ready to be
//! proved, one checkpoint after the other.
use vstd::prelude::*;

use crate::batches::{batch_contents, batched, make_batches};
use crate::coordinator::{
    after_closing, after_records, after_stamping, after_traces, may_close, may_finish_records,
    may_send, may_stamp, Coordinator, CoordinatorView, Stage,
};
use crate::shards::{closing_shards, execution_stamped};
use crate::values::{Layout, Record};

verus! {

/// What a worker remembers while something else is being done for it.
pub enum Worker<L: Layout, P, T> {
    /// It has no checkpoint.
    Receiving,
    /// Its checkpoint is being traced.
    Tracing { index: usize, done: bool },
    /// It waits for its turn to number the shards of its checkpoint.
    AwaitingRecords { index: usize, done: bool, records: Vec<Record<L, P>> },
    /// Its execution shards are numbered; deferred events and shards are being sorted out.
    Deferring { index: usize, done: bool },
    /// Its shards are numbered; the events that follow from theirs are being added.
    AddingDependencies { index: usize },
    /// Its traces are being generated.
    Generating { index: usize },
    /// It waits for its turn to send its batches.
    AwaitingTraces { index: usize, records: Vec<Record<L, P>>, traces: Vec<T> },
    /// One of its batches is being sent, and these are to follow.
    Sending { index: usize, rest: Vec<(Vec<Record<L, P>>, Vec<T>)> },
    /// There are no more checkpoints.
    Stopped,
}

/// What a worker asks for.
pub enum WorkerAction<L: Layout, P, T> {
    /// Receive a checkpoint.
    Receive,
    /// Restore and trace the checkpoint, and add what was executed to the report.
    Trace,
    /// Wait until another worker has taken a step.
    Wait,
    /// Take the events to be held back out of these records, and get the shards that are full, or
    /// all of them if `done`.
    DeferAndSplit { done: bool, records: Vec<Record<L, P>> },
    /// Add the events that follow from those of these records.
    AddDependencies { records: Vec<Record<L, P>> },
    /// Fix the shapes of these records if `fix_shapes`, and generate their traces.
    GenerateTraces { fix_shapes: bool, records: Vec<Record<L, P>> },
    /// Send this batch to the prover.
    Send { records: Vec<Record<L, P>>, traces: Vec<T> },
    /// Nothing more.
    Stop,
}

/// What came of what a worker asked for.
pub enum WorkerEvent<L: Layout, P, T> {
    /// The checkpoint with this number, which may be the last.
    Received { index: usize, done: bool },
    /// There are no more checkpoints.
    Disconnected,
    /// The records of the checkpoint.
    Traced { records: Vec<Record<L, P>> },
    /// Another worker has taken a step.
    Woken,
    /// The records without the events to be held back, and the shards that are full.
    Split { records: Vec<Record<L, P>>, deferred: Vec<Record<L, P>> },
    /// The records with the events that follow from theirs.
    DependenciesAdded { records: Vec<Record<L, P>> },
    /// The records in their final shape, with their traces.
    TracesGenerated { records: Vec<Record<L, P>>, traces: Vec<T> },
    /// The batch is sent.
    BatchSent,
}

/// The model of a `Worker`.
pub enum WorkerView<L: Layout, P, T> {
    Receiving,
    Tracing { index: nat, done: bool },
    AwaitingRecords { index: nat, done: bool, records: Seq<Record<L, P>> },
    Deferring { index: nat, done: bool },
    AddingDependencies { index: nat },
    Generating { index: nat },
    AwaitingTraces { index: nat, records: Seq<Record<L, P>>, traces: Seq<T> },
    Sending { index: nat, rest: Seq<(Seq<Record<L, P>>, Seq<T>)> },
    Stopped,
}

/// The model of a `WorkerAction`.
pub enum ActionView<L: Layout, P, T> {
    Receive,
    Trace,
    Wait,
    DeferAndSplit { done: bool, records: Seq<Record<L, P>> },
    AddDependencies { records: Seq<Record<L, P>> },
    GenerateTraces { fix_shapes: bool, records: Seq<Record<L, P>> },
    Send { batch: (Seq<Record<L, P>>, Seq<T>) },
    Stop,
}

/// The model of a `WorkerEvent`.
pub enum EventView<L: Layout, P, T> {
    Received { index: nat, done: bool },
    Disconnected,
    Traced { records: Seq<Record<L, P>> },
    Woken,
    Split { records: Seq<Record<L, P>>, deferred: Seq<Record<L, P>> },
    DependenciesAdded { records: Seq<Record<L, P>> },
    TracesGenerated { records: Seq<Record<L, P>>, traces: Seq<T> },
    BatchSent,
}

impl<L: Layout, P, T> View for Worker<L, P, T> {
    type V = WorkerView<L, P, T>;

    open spec fn view(&self) -> WorkerView<L, P, T> {
        match *self {
            Worker::Receiving => WorkerView::Receiving,
            Worker::Tracing { index, done } => WorkerView::Tracing { index: index as nat, done },
            Worker::AwaitingRecords { index, done, records } => WorkerView::AwaitingRecords {
                index: index as nat,
                done,
                records: records@,
            },
            Worker::Deferring { index, done } => WorkerView::Deferring {
                index: index as nat,
                done,
            },
            Worker::AddingDependencies { index } => WorkerView::AddingDependencies {
                index: index as nat,
            },
            Worker::Generating { index } => WorkerView::Generating { index: index as nat },
            Worker::AwaitingTraces { index, records, traces } => WorkerView::AwaitingTraces {
                index: index as nat,
                records: records@,
                traces: traces@,
            },
            Worker::Sending { index, rest } => WorkerView::Sending {
                index: index as nat,
                rest: batch_contents(rest@),
            },
            Worker::Stopped => WorkerView::Stopped,
        }
    }
}

impl<L: Layout, P, T> View for WorkerAction<L, P, T> {
    type V = ActionView<L, P, T>;

    open spec fn view(&self) -> ActionView<L, P, T> {
        match *self {
            WorkerAction::Receive => ActionView::Receive,
            WorkerAction::Trace => ActionView::Trace,
            WorkerAction::Wait => ActionView::Wait,
            WorkerAction::DeferAndSplit { done, records } => ActionView::DeferAndSplit {
                done,
                records: records@,
            },
            WorkerAction::AddDependencies { records } => ActionView::AddDependencies {
                records: records@,
            },
            WorkerAction::GenerateTraces { fix_shapes, records } => ActionView::GenerateTraces {
                fix_shapes,
                records: records@,
            },
            WorkerAction::Send { records, traces } => ActionView::Send {
                batch: (records@, traces@),
            },
            WorkerAction::Stop => ActionView::Stop,
        }
    }
}

impl<L: Layout, P, T> View for WorkerEvent<L, P, T> {
    type V = EventView<L, P, T>;

    open spec fn view(&self) -> EventView<L, P, T> {
        match *self {
            WorkerEvent::Received { index, done } => EventView::Received {
                index: index as nat,
                done,
            },
            WorkerEvent::Disconnected => EventView::Disconnected,
            WorkerEvent::Traced { records } => EventView::Traced { records: records@ },
            WorkerEvent::Woken => EventView::Woken,
            WorkerEvent::Split { records, deferred } => EventView::Split {
                records: records@,
                deferred: deferred@,
            },
            WorkerEvent::DependenciesAdded { records } => EventView::DependenciesAdded {
                records: records@,
            },
            WorkerEvent::TracesGenerated { records, traces } => EventView::TracesGenerated {
                records: records@,
                traces: traces@,
            },
            WorkerEvent::BatchSent => EventView::BatchSent,
        }
    }
}

/// What a step of a worker leads to.
pub struct Outcome<L: Layout, P, T> {
    pub shared: CoordinatorView<L>,
    pub worker: WorkerView<L, P, T>,
    pub action: ActionView<L, P, T>,
}

/// The worker of checkpoint `index` has its records: it numbers the execution shards if its turn
/// has come, and waits if not.
pub open spec fn records_traced<L: Layout, P, T>(
    shared: CoordinatorView<L>,
    index: nat,
    done: bool,
    records: Seq<Record<L, P>>,
) -> Outcome<L, P, T> {
    if may_stamp(shared, index) {
        Outcome {
            shared: after_stamping(shared, records),
            worker: WorkerView::Deferring { index, done },
            action: ActionView::DeferAndSplit {
                done,
                records: execution_stamped(shared.values, records),
            },
        }
    } else {
        Outcome {
            shared,
            worker: WorkerView::AwaitingRecords { index, done, records },
            action: ActionView::Wait,
        }
    }
}

/// The worker of checkpoint `index`, whose turn it is to send, has these batches left: it sends the
/// first of them, or hands the turn on and receives the next checkpoint if there is none.
pub open spec fn batches_left<L: Layout, P, T>(
    shared: CoordinatorView<L>,
    index: nat,
    batches: Seq<(Seq<Record<L, P>>, Seq<T>)>,
) -> Outcome<L, P, T> {
    if batches.len() == 0 {
        Outcome {
            shared: after_traces(shared),
            worker: WorkerView::Receiving,
            action: ActionView::Receive,
        }
    } else {
        Outcome {
            shared,
            worker: WorkerView::Sending { index, rest: batches.drop_first() },
            action: ActionView::Send { batch: batches.first() },
        }
    }
}

/// The worker of checkpoint `index` has its traces: it starts to send its batches if its turn has
/// come, and waits if not.
pub open spec fn traces_generated<L: Layout, P, T>(
    shared: CoordinatorView<L>,
    index: nat,
    records: Seq<Record<L, P>>,
    traces: Seq<T>,
    batch_size: nat,
) -> Outcome<L, P, T> {
    if may_send(shared, index) {
        batches_left(shared, index, batched(records, traces, batch_size))
    } else {
        Outcome {
            shared,
            worker: WorkerView::AwaitingTraces { index, records, traces },
            action: ActionView::Wait,
        }
    }
}

/// What `event` leads to, with batches of `batch_size` shards, whose shapes are fixed if
/// `fix_shapes`.
pub open spec fn worker_step<L: Layout, P, T>(
    shared: CoordinatorView<L>,
    worker: WorkerView<L, P, T>,
    event: EventView<L, P, T>,
    batch_size: nat,
    fix_shapes: bool,
) -> Outcome<L, P, T> {
    match (worker, event) {
        (WorkerView::Receiving, EventView::Received { index, done }) => Outcome {
            shared,
            worker: WorkerView::Tracing { index, done },
            action: ActionView::Trace,
        },
        (WorkerView::Receiving, EventView::Disconnected) => Outcome {
            shared,
            worker: WorkerView::Stopped,
            action: ActionView::Stop,
        },
        (WorkerView::Tracing { index, done }, EventView::Traced { records }) => records_traced(
            shared,
            index,
            done,
            records,
        ),
        (WorkerView::AwaitingRecords { index, done, records }, EventView::Woken) => records_traced(
            shared,
            index,
            done,
            records,
        ),
        (WorkerView::Deferring { index, done }, EventView::Split { records, deferred }) => Outcome {
            shared: after_closing(shared, done, deferred),
            worker: WorkerView::AddingDependencies { index },
            action: ActionView::AddDependencies {
                records: records + closing_shards(shared.values, done, deferred),
            },
        },
        (
            WorkerView::AddingDependencies { index },
            EventView::DependenciesAdded { records },
        ) => Outcome {
            shared: after_records(shared),
            worker: WorkerView::Generating { index },
            action: ActionView::GenerateTraces { fix_shapes, records },
        },
        (
            WorkerView::Generating { index },
            EventView::TracesGenerated { records, traces },
        ) => traces_generated(shared, index, records, traces, batch_size),
        (
            WorkerView::AwaitingTraces { index, records, traces },
            EventView::Woken,
        ) => traces_generated(shared, index, records, traces, batch_size),
        (WorkerView::Sending { index, rest }, EventView::BatchSent) => batches_left(
            shared,
            index,
            rest,
        ),
        _ => Outcome { shared, worker, action: ActionView::Stop },
    }
}

/// Whether a worker that waits for its turn need wait no longer. One that does not wait never need.
pub open spec fn is_due_in<L: Layout, P, T>(
    shared: CoordinatorView<L>,
    worker: WorkerView<L, P, T>,
) -> bool {
    match worker {
        WorkerView::AwaitingRecords { index, .. } => may_stamp(shared, index),
        WorkerView::AwaitingTraces { index, .. } => may_send(shared, index),
        _ => true,
    }
}

/// The shards `records` of checkpoint `index` can be numbered, should it be their turn.
pub open spec fn room_for<L: Layout, P>(
    shared: CoordinatorView<L>,
    index: nat,
    records: Seq<Record<L, P>>,
) -> bool {
    may_stamp(shared, index) ==> shared.values.shard + records.len() <= u32::MAX
}

/// Whether `event` can come of what `worker` asked for, the turns are where they are when it does,
/// and the numbers suffice.
pub open spec fn may_step<L: Layout, P, T>(
    shared: CoordinatorView<L>,
    worker: WorkerView<L, P, T>,
    event: EventView<L, P, T>,
    batch_size: nat,
) -> bool {
    match (worker, event) {
        (WorkerView::Receiving, EventView::Received { .. }) => true,
        (WorkerView::Receiving, EventView::Disconnected) => true,
        (WorkerView::Tracing { index, .. }, EventView::Traced { records }) => room_for(
            shared,
            index,
            records,
        ),
        (WorkerView::AwaitingRecords { index, records, .. }, EventView::Woken) => room_for(
            shared,
            index,
            records,
        ),
        (WorkerView::Deferring { index, done }, EventView::Split { deferred, .. }) => {
            &&& may_close(shared, index)
            &&& shared.values.shard + deferred.len() <= u32::MAX
            &&& !done ==> shared.values.execution_shard < u32::MAX
        },
        (WorkerView::AddingDependencies { index }, EventView::DependenciesAdded { .. }) => {
            &&& may_finish_records(shared, index)
            &&& index < usize::MAX
        },
        (WorkerView::Generating { .. }, EventView::TracesGenerated { records, traces }) =>
            batch_size > 0 || (records.len() == 0 && traces.len() == 0),
        (WorkerView::AwaitingTraces { records, traces, .. }, EventView::Woken) => batch_size > 0
            || (records.len() == 0 && traces.len() == 0),
        (WorkerView::Sending { index, .. }, EventView::BatchSent) => may_send(shared, index),
        _ => false,
    }
}

impl<L: Layout, P, T> Worker<L, P, T> {
    /// A worker without a checkpoint. What it asks for first is to receive one.
    pub fn new() -> (worker: Self)
        ensures
            worker@ == WorkerView::<L, P, T>::Receiving,
            worker is Receiving,
    {
        Worker::Receiving
    }

    /// Whether the worker need not wait: its turn has come, or it waits for none.
    pub fn is_due(&self, shared: &Coordinator<L>) -> (due: bool)
        ensures
            due == is_due_in(shared@, self@),
            due == match *self {
                Worker::AwaitingRecords { index, .. } => shared.record_turn.current_turn == index
                    && shared.stage == Stage::Idle,
                Worker::AwaitingTraces { index, .. } => shared.trace_turn.current_turn == index
                    && index < shared.record_turn.current_turn,
                _ => true,
            },
    {
        match self {
            Worker::AwaitingRecords { index, .. } => shared.is_record_turn(*index),
            Worker::AwaitingTraces { index, .. } => shared.is_trace_turn(*index),
            _ => true,
        }
    }

    /// Whether `event` can be gone on with: it answers what the worker asked for, the turns are
    /// where they are when it does, and the numbers suffice.
    pub fn can_step(
        &self,
        shared: &Coordinator<L>,
        event: &WorkerEvent<L, P, T>,
        batch_size: usize,
    ) -> (can: bool)
        ensures
            can == may_step(shared@, self@, event@, batch_size as nat),
            can == match *self {
                Worker::Receiving => *event is Received || *event is Disconnected,
                Worker::Tracing { index, .. } => *event matches WorkerEvent::Traced { records } && (
                shared.record_turn.current_turn == index && shared.stage == Stage::Idle
                    ==> shared.values.shard + records@.len() <= u32::MAX),
                Worker::AwaitingRecords { index, records, .. } => *event is Woken && (
                shared.record_turn.current_turn == index && shared.stage == Stage::Idle
                    ==> shared.values.shard + records@.len() <= u32::MAX),
                Worker::Deferring { index, done } => *event matches WorkerEvent::Split {
                    deferred,
                    ..
                } && shared.record_turn.current_turn == index && shared.stage == Stage::Stamped
                    && shared.values.shard + deferred@.len() <= u32::MAX && (done
                    || shared.values.execution_shard < u32::MAX),
                Worker::AddingDependencies { index } => *event is DependenciesAdded
                    && shared.record_turn.current_turn == index && shared.stage == Stage::Closed
                    && index < usize::MAX,
                Worker::Generating { .. } => *event matches WorkerEvent::TracesGenerated {
                    records,
                    traces,
                } && (batch_size > 0 || (records@.len() == 0 && traces@.len() == 0)),
                Worker::AwaitingTraces { records, traces, .. } => *event is Woken && (batch_size > 0
                    || (records@.len() == 0 && traces@.len() == 0)),
                Worker::Sending { index, .. } => *event is BatchSent
                    && shared.trace_turn.current_turn == index && index
                    < shared.record_turn.current_turn,
                Worker::Stopped => false,
            },
    {
        match (self, event) {
            (Worker::Receiving, WorkerEvent::Received { .. }) => true,
            (Worker::Receiving, WorkerEvent::Disconnected) => true,
            (Worker::Tracing { index, .. }, WorkerEvent::Traced { records }) => {
                !shared.is_record_turn(*index) || shared.has_room(records.len())
            },
            (Worker::AwaitingRecords { index, records, .. }, WorkerEvent::Woken) => {
                !shared.is_record_turn(*index) || shared.has_room(records.len())
            },
            (Worker::Deferring { index, done }, WorkerEvent::Split { deferred, .. }) => {
                shared.is_closing_turn(*index) && shared.has_room(deferred.len()) && (*done
                    || shared.values.execution_shard < u32::MAX)
            },
            (Worker::AddingDependencies { index }, WorkerEvent::DependenciesAdded { .. }) => {
                shared.is_finishing_turn(*index) && *index < usize::MAX
            },
            (Worker::Generating { .. }, WorkerEvent::TracesGenerated { records, traces }) => {
                batch_size > 0 || (records.len() == 0 && traces.len() == 0)
            },
            (Worker::AwaitingTraces { records, traces, .. }, WorkerEvent::Woken) => {
                batch_size > 0 || (records.len() == 0 && traces.len() == 0)
            },
            (Worker::Sending { index, .. }, WorkerEvent::BatchSent) => shared.is_trace_turn(
                *index,
            ),
            _ => false,
        }
    }

    fn stamp_or_wait(
        shared: &mut Coordinator<L>,
        index: usize,
        done: bool,
        records: Vec<Record<L, P>>,
    ) -> (next: (Self, WorkerAction<L, P, T>))
        requires
            room_for(old(shared)@, index as nat, records@),
        ensures
            (Outcome { shared: final(shared)@, worker: next.0@, action: next.1@ })
                == records_traced::<L, P, T>(old(shared)@, index as nat, done, records@),
    {
        if shared.is_record_turn(index) {
            let stamped: Vec<Record<L, P>> = shared.stamp_execution(index, records);
            (
                Worker::Deferring { index, done },
                WorkerAction::DeferAndSplit { done, records: stamped },
            )
        } else {
            (Worker::AwaitingRecords { index, done, records }, WorkerAction::Wait)
        }
    }

    fn send_next(
        shared: &mut Coordinator<L>,
        index: usize,
        batches: Vec<(Vec<Record<L, P>>, Vec<T>)>,
    ) -> (next: (Self, WorkerAction<L, P, T>))
        requires
            may_send(old(shared)@, index as nat),
        ensures
            (Outcome { shared: final(shared)@, worker: next.0@, action: next.1@ })
                == batches_left::<L, P, T>(old(shared)@, index as nat, batch_contents(batches@)),
    {
        if batches.len() == 0 {
            shared.finish_traces(index);
            (Worker::Receiving, WorkerAction::Receive)
        } else {
            let mut rest: Vec<(Vec<Record<L, P>>, Vec<T>)> = batches;
            let (records, traces) = rest.remove(0);
            assert(batch_contents(rest@) =~= batch_contents(batches@).drop_first());
            (Worker::Sending { index, rest }, WorkerAction::Send { records, traces })
        }
    }

    fn send_or_wait(
        shared: &mut Coordinator<L>,
        index: usize,
        records: Vec<Record<L, P>>,
        traces: Vec<T>,
        batch_size: usize,
    ) -> (next: (Self, WorkerAction<L, P, T>))
        requires
            batch_size > 0 || (records@.len() == 0 && traces@.len() == 0),
        ensures
            (Outcome { shared: final(shared)@, worker: next.0@, action: next.1@ })
                == traces_generated::<L, P, T>(
                old(shared)@,
                index as nat,
                records@,
                traces@,
                batch_size as nat,
            ),
    {
        if shared.is_trace_turn(index) {
            Self::send_next(shared, index, make_batches(records, traces, batch_size))
        } else {
            (Worker::AwaitingTraces { index, records, traces }, WorkerAction::Wait)
        }
    }

    /// Goes on with what came of the last action, in batches of `batch_size` shards, whose shapes
    /// are fixed if `fix_shapes`.
    pub fn step(
        self,
        shared: &mut Coordinator<L>,
        event: WorkerEvent<L, P, T>,
        batch_size: usize,
        fix_shapes: bool,
    ) -> (next: (Self, WorkerAction<L, P, T>))
        requires
            may_step(old(shared)@, self@, event@, batch_size as nat),
        ensures
            (Outcome { shared: final(shared)@, worker: next.0@, action: next.1@ }) == worker_step(
                old(shared)@,
                self@,
                event@,
                batch_size as nat,
                fix_shapes,
            ),
    {
        match (self, event) {
            (Worker::Receiving, WorkerEvent::Received { index, done }) => {
                (Worker::Tracing { index, done }, WorkerAction::Trace)
            },
            (Worker::Receiving, WorkerEvent::Disconnected) => {
                (Worker::Stopped, WorkerAction::Stop)
            },
            (Worker::Tracing { index, done }, WorkerEvent::Traced { records }) => {
                Self::stamp_or_wait(shared, index, done, records)
            },
            (Worker::AwaitingRecords { index, done, records }, WorkerEvent::Woken) => {
                Self::stamp_or_wait(shared, index, done, records)
            },
            (Worker::Deferring { index, done }, WorkerEvent::Split { records, deferred }) => {
                let closed: Vec<Record<L, P>> = shared.close(index, done, records, deferred);
                (
                    Worker::AddingDependencies { index },
                    WorkerAction::AddDependencies { records: closed },
                )
            },
            (
                Worker::AddingDependencies { index },
                WorkerEvent::DependenciesAdded { records },
            ) => {
                shared.finish_records(index);
                (
                    Worker::Generating { index },
                    WorkerAction::GenerateTraces { fix_shapes, records },
                )
            },
            (Worker::Generating { index }, WorkerEvent::TracesGenerated { records, traces }) => {
                Self::send_or_wait(shared, index, records, traces, batch_size)
            },
            (Worker::AwaitingTraces { index, records, traces }, WorkerEvent::Woken) => {
                Self::send_or_wait(shared, index, records, traces, batch_size)
            },
            (Worker::Sending { index, rest }, WorkerEvent::BatchSent) => {
                Self::send_next(shared, index, rest)
            },
            (worker, _) => (worker, WorkerAction::Stop),
        }
    }
}

} // verus!

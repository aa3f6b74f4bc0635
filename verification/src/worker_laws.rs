//! What holds of the steps of a worker.
use vstd::math::min;
use vstd::prelude::*;

use crate::batches::{batched, law_batch_in_place};
use crate::coordinator::{CoordinatorView, Stage};
use crate::values::{Layout, PublicValues, Record};
use crate::worker::{
    is_due_in, may_step, worker_step, ActionView, EventView, Outcome, Worker, WorkerAction,
    WorkerEvent, WorkerView,
};

verus! {

/// The model of a worker holds what the worker remembers.
pub proof fn law_worker_view<L: Layout, P, T>(worker: Worker<L, P, T>)
    ensures
        match worker {
            Worker::Receiving => worker@ is Receiving,
            Worker::Tracing { index: i, done: d } => worker@ matches WorkerView::Tracing {
                index,
                done,
            } && index == i && done == d,
            Worker::AwaitingRecords { index: i, done: d, records: r } =>
                worker@ matches WorkerView::AwaitingRecords { index, done, records } && index == i
                    && done == d && records == r@,
            Worker::Deferring { index: i, done: d } => worker@ matches WorkerView::Deferring {
                index,
                done,
            } && index == i && done == d,
            Worker::AddingDependencies {
                index: i,
            } => worker@ matches WorkerView::AddingDependencies { index } && index == i,
            Worker::Generating { index: i } => worker@ matches WorkerView::Generating { index }
                && index == i,
            Worker::AwaitingTraces { index: i, records: r, traces: t } =>
                worker@ matches WorkerView::AwaitingTraces { index, records, traces } && index == i
                    && records == r@ && traces == t@,
            Worker::Sending { index: i, rest: batches } => {
                &&& worker@ matches WorkerView::Sending { index, rest }
                &&& index == i
                &&& rest.len() == batches@.len()
                &&& forall|j: int|
                    0 <= j < rest.len() ==> #[trigger] rest[j] == (batches@[j].0@, batches@[j].1@)
            },
            Worker::Stopped => worker@ is Stopped,
        },
{
}

/// The model of an action holds what the action asks for.
pub proof fn law_action_view<L: Layout, P, T>(action: WorkerAction<L, P, T>)
    ensures
        match action {
            WorkerAction::Receive => action@ is Receive,
            WorkerAction::Trace => action@ is Trace,
            WorkerAction::Wait => action@ is Wait,
            WorkerAction::DeferAndSplit { done: d, records: r } =>
                action@ matches ActionView::DeferAndSplit { done, records } && done == d && records
                    == r@,
            WorkerAction::AddDependencies {
                records: r,
            } => action@ matches ActionView::AddDependencies { records } && records == r@,
            WorkerAction::GenerateTraces { fix_shapes: f, records: r } =>
                action@ matches ActionView::GenerateTraces { fix_shapes, records } && fix_shapes
                    == f && records == r@,
            WorkerAction::Send { records, traces } => action@ matches ActionView::Send { batch }
                && batch.0 == records@ && batch.1 == traces@,
            WorkerAction::Stop => action@ is Stop,
        },
{
}

/// The model of an event holds what the event says.
pub proof fn law_event_view<L: Layout, P, T>(event: WorkerEvent<L, P, T>)
    ensures
        match event {
            WorkerEvent::Received { index: i, done: d } => event@ matches EventView::Received {
                index,
                done,
            } && index == i && done == d,
            WorkerEvent::Disconnected => event@ is Disconnected,
            WorkerEvent::Traced { records: r } => event@ matches EventView::Traced { records }
                && records == r@,
            WorkerEvent::Woken => event@ is Woken,
            WorkerEvent::Split { records: r, deferred: d } => event@ matches EventView::Split {
                records,
                deferred,
            } && records == r@ && deferred == d@,
            WorkerEvent::DependenciesAdded {
                records: r,
            } => event@ matches EventView::DependenciesAdded { records } && records == r@,
            WorkerEvent::TracesGenerated { records: r, traces: t } =>
                event@ matches EventView::TracesGenerated { records, traces } && records == r@
                    && traces == t@,
            WorkerEvent::BatchSent => event@ is BatchSent,
        },
{
}

/// A worker can go on just with an answer to what it asked for, while it has the turn that the answer
/// needs, and while there are numbers for what is to be numbered.
pub proof fn law_may_step<L: Layout, P, T>(
    shared: CoordinatorView<L>,
    worker: WorkerView<L, P, T>,
    event: EventView<L, P, T>,
    batch_size: nat,
)
    ensures
        may_step(shared, worker, event, batch_size) <==> match worker {
            WorkerView::Receiving => event is Received || event is Disconnected,
            WorkerView::Tracing { index, .. } => event matches EventView::Traced { records } && (
            shared.record_turn == index && shared.stage == Stage::Idle ==> shared.values.shard
                + records.len() <= u32::MAX),
            WorkerView::AwaitingRecords { index, records, .. } => event is Woken && (
            shared.record_turn == index && shared.stage == Stage::Idle ==> shared.values.shard
                + records.len() <= u32::MAX),
            WorkerView::Deferring { index, done } => event matches EventView::Split {
                deferred,
                ..
            } && shared.record_turn == index && shared.stage == Stage::Stamped
                && shared.values.shard + deferred.len() <= u32::MAX && (done
                || shared.values.execution_shard < u32::MAX),
            WorkerView::AddingDependencies { index } => event is DependenciesAdded
                && shared.record_turn == index && shared.stage == Stage::Closed && index
                < usize::MAX,
            WorkerView::Generating { .. } => event matches EventView::TracesGenerated {
                records,
                traces,
            } && (batch_size > 0 || (records.len() == 0 && traces.len() == 0)),
            WorkerView::AwaitingTraces { records, traces, .. } => event is Woken && (batch_size > 0
                || (records.len() == 0 && traces.len() == 0)),
            WorkerView::Sending { index, .. } => event is BatchSent && shared.trace_turn == index
                && index < shared.record_turn,
            WorkerView::Stopped => false,
        },
{
}

/// A worker that waits to number its shards is due once it is its turn to and none of its shards is
/// numbered. One that waits to send is due once it is its turn to send and its turn to number is
/// over. One that waits for nothing is due.
pub proof fn law_due<L: Layout, P, T>(shared: CoordinatorView<L>, worker: WorkerView<L, P, T>)
    ensures
        worker matches WorkerView::AwaitingRecords { index, .. } ==> (is_due_in(shared, worker)
            <==> shared.record_turn == index && shared.stage == Stage::Idle),
        worker matches WorkerView::AwaitingTraces { index, .. } ==> (is_due_in(shared, worker)
            <==> shared.trace_turn == index && index < shared.record_turn),
        !(worker is AwaitingRecords) && !(worker is AwaitingTraces) ==> is_due_in(shared, worker),
{
}

/// A worker that waits and is woken goes on if it is due. If it is not, waking it changes nothing.
pub proof fn law_waking<L: Layout, P, T>(
    shared: CoordinatorView<L>,
    worker: WorkerView<L, P, T>,
    batch_size: nat,
    fix_shapes: bool,
)
    requires
        worker is AwaitingRecords || worker is AwaitingTraces,
    ensures
        ({
            let outcome = worker_step(shared, worker, EventView::Woken, batch_size, fix_shapes);
            if is_due_in(shared, worker) {
                !(outcome.action is Wait) && outcome.worker != worker
            } else {
                outcome == (Outcome { shared, worker, action: ActionView::Wait })
            }
        }),
{
}

/// To wait for the turn to number shards does not matter: a worker whose turn has not come changes
/// nothing, and does later what it would do if its checkpoint had been traced only then.
pub proof fn law_waiting_for_records<L: Layout, P, T>(
    early: CoordinatorView<L>,
    late: CoordinatorView<L>,
    index: nat,
    done: bool,
    records: Seq<Record<L, P>>,
    batch_size: nat,
    fix_shapes: bool,
)
    requires
        !(early.record_turn == index && early.stage == Stage::Idle),
    ensures
        ({
            let tracing = WorkerView::<L, P, T>::Tracing { index, done };
            let traced = EventView::<L, P, T>::Traced { records };
            let outcome = worker_step(early, tracing, traced, batch_size, fix_shapes);
            &&& outcome.shared == early
            &&& outcome.action is Wait
            &&& outcome.worker == (WorkerView::<L, P, T>::AwaitingRecords { index, done, records })
            &&& worker_step(late, outcome.worker, EventView::Woken, batch_size, fix_shapes)
                == worker_step(late, tracing, traced, batch_size, fix_shapes)
        }),
{
}

/// To wait for the turn to send does not matter: a worker whose turn has not come changes nothing,
/// and does later what it would do if its traces had been generated only then.
pub proof fn law_waiting_for_traces<L: Layout, P, T>(
    early: CoordinatorView<L>,
    late: CoordinatorView<L>,
    index: nat,
    records: Seq<Record<L, P>>,
    traces: Seq<T>,
    batch_size: nat,
    fix_shapes: bool,
)
    requires
        !(early.trace_turn == index && index < early.record_turn),
    ensures
        ({
            let generating = WorkerView::<L, P, T>::Generating { index };
            let generated = EventView::<L, P, T>::TracesGenerated { records, traces };
            let outcome = worker_step(early, generating, generated, batch_size, fix_shapes);
            &&& outcome.shared == early
            &&& outcome.action is Wait
            &&& outcome.worker == (WorkerView::<L, P, T>::AwaitingTraces {
                index,
                records,
                traces,
            })
            &&& worker_step(late, outcome.worker, EventView::Woken, batch_size, fix_shapes)
                == worker_step(late, generating, generated, batch_size, fix_shapes)
        }),
{
}

/// A worker that gets a checkpoint has it traced, under its number, and one for which there is none
/// stops. Neither changes what is shared.
pub proof fn law_receiving<L: Layout, P, T>(
    shared: CoordinatorView<L>,
    index: nat,
    done: bool,
    batch_size: nat,
    fix_shapes: bool,
)
    ensures
        worker_step(
            shared,
            WorkerView::<L, P, T>::Receiving,
            EventView::Received { index, done },
            batch_size,
            fix_shapes,
        ) == (Outcome {
            shared,
            worker: WorkerView::Tracing { index, done },
            action: ActionView::<L, P, T>::Trace,
        }),
        worker_step(
            shared,
            WorkerView::<L, P, T>::Receiving,
            EventView::Disconnected,
            batch_size,
            fix_shapes,
        ) == (Outcome {
            shared,
            worker: WorkerView::Stopped,
            action: ActionView::<L, P, T>::Stop,
        }),
{
}

/// A worker whose turn it is hands on all the records of its checkpoint, in their order and with
/// their events, numbered on from the last shard. Each keeps what it knows of its own execution. The
/// turns stay as they are.
pub proof fn law_execution_shards_numbered<L: Layout, P, T>(
    shared: CoordinatorView<L>,
    index: nat,
    done: bool,
    records: Seq<Record<L, P>>,
    batch_size: nat,
    fix_shapes: bool,
)
    requires
        shared.record_turn == index,
        shared.stage == Stage::Idle,
        shared.values.shard + records.len() <= u32::MAX,
    ensures
        ({
            let outcome = worker_step(
                shared,
                WorkerView::<L, P, T>::Tracing { index, done },
                EventView::Traced { records },
                batch_size,
                fix_shapes,
            );
            let next = outcome.shared;
            let asked = outcome.action->DeferAndSplit_records;
            &&& outcome.worker == (WorkerView::<L, P, T>::Deferring { index, done })
            &&& outcome.action is DeferAndSplit
            &&& outcome.action->done == done
            &&& asked.len() == records.len()
            &&& forall|i: int|
                0 <= i < records.len() ==> {
                    let own = records[i].public_values;
                    &&& (#[trigger] asked[i]).events == records[i].events
                    &&& asked[i].public_values == (PublicValues {
                        shard: (shared.values.shard + i + 1) as u32,
                        execution_shard: own.execution_shard,
                        start_pc: own.start_pc,
                        next_pc: own.next_pc,
                        committed_value_digest: own.committed_value_digest,
                        deferred_proofs_digest: own.deferred_proofs_digest,
                        ..shared.values
                    })
                }
            &&& next.record_turn == index
            &&& next.trace_turn == shared.trace_turn
            &&& next.stage == Stage::Stamped
            &&& next.values == if records.len() == 0 {
                shared.values
            } else {
                asked[records.len() - 1].public_values
            }
        }),
{
}

/// A worker puts the deferred shards of its checkpoint, all of them in their order and with their
/// events, behind its execution shards, which stay as they are. They are numbered on, execute
/// nothing, and have their own addresses. The turns stay as they are.
pub proof fn law_deferred_shards_numbered<L: Layout, P, T>(
    shared: CoordinatorView<L>,
    index: nat,
    done: bool,
    records: Seq<Record<L, P>>,
    deferred: Seq<Record<L, P>>,
    batch_size: nat,
    fix_shapes: bool,
)
    requires
        shared.values.shard + deferred.len() <= u32::MAX,
        !done ==> shared.values.execution_shard < u32::MAX,
    ensures
        ({
            let outcome = worker_step(
                shared,
                WorkerView::<L, P, T>::Deferring { index, done },
                EventView::Split { records, deferred },
                batch_size,
                fix_shapes,
            );
            let next = outcome.shared;
            let asked = outcome.action->AddDependencies_records;
            let execution_shard = if done {
                shared.values.execution_shard
            } else {
                (shared.values.execution_shard + 1) as u32
            };
            &&& outcome.worker == (WorkerView::<L, P, T>::AddingDependencies { index })
            &&& outcome.action is AddDependencies
            &&& asked.len() == records.len() + deferred.len()
            &&& asked.take(records.len() as int) == records
            &&& forall|i: int|
                records.len() <= i < asked.len() ==> {
                    let own = deferred[i - records.len()];
                    &&& (#[trigger] asked[i]).events == own.events
                    &&& asked[i].public_values == (PublicValues {
                        shard: (shared.values.shard + i - records.len() + 1) as u32,
                        execution_shard,
                        start_pc: shared.values.next_pc,
                        previous_init_addr_bits: own.public_values.previous_init_addr_bits,
                        last_init_addr_bits: own.public_values.last_init_addr_bits,
                        previous_finalize_addr_bits: own.public_values.previous_finalize_addr_bits,
                        last_finalize_addr_bits: own.public_values.last_finalize_addr_bits,
                        ..shared.values
                    })
                }
            &&& next.record_turn == shared.record_turn
            &&& next.trace_turn == shared.trace_turn
            &&& next.stage == Stage::Closed
            &&& next.values == if deferred.len() == 0 {
                PublicValues { execution_shard, ..shared.values }
            } else {
                asked[asked.len() - 1].public_values
            }
        }),
{
    let asked = worker_step(
        shared,
        WorkerView::<L, P, T>::Deferring { index, done },
        EventView::Split { records, deferred },
        batch_size,
        fix_shapes,
    ).action->AddDependencies_records;
    assert(asked.take(records.len() as int) =~= records);
}

/// A worker hands the turn to number shards on once the events that follow are there, and has the
/// traces of just these records generated, with their shapes fixed if they are to be.
pub proof fn law_turn_handed_on<L: Layout, P, T>(
    shared: CoordinatorView<L>,
    index: nat,
    records: Seq<Record<L, P>>,
    batch_size: nat,
    fix_shapes: bool,
)
    ensures
        ({
            let outcome = worker_step(
                shared,
                WorkerView::<L, P, T>::AddingDependencies { index },
                EventView::DependenciesAdded { records },
                batch_size,
                fix_shapes,
            );
            &&& outcome.worker == (WorkerView::<L, P, T>::Generating { index })
            &&& outcome.action == (ActionView::<L, P, T>::GenerateTraces { fix_shapes, records })
            &&& outcome.shared == (CoordinatorView {
                record_turn: shared.record_turn + 1,
                stage: Stage::Idle,
                ..shared
            })
        }),
{
}

/// A worker whose turn it is sends the first of its batches: as many records and traces as a batch
/// holds, or all of them if they are fewer. The batches after it, of which the one at `i` starts
/// `i + 1` batches on, are to follow. Without a batch, it lets the next one send, and receives.
pub proof fn law_sending_starts<L: Layout, P, T>(
    shared: CoordinatorView<L>,
    index: nat,
    records: Seq<Record<L, P>>,
    traces: Seq<T>,
    batch_size: nat,
    fix_shapes: bool,
    i: int,
)
    requires
        0 <= i,
        shared.trace_turn == index,
        index < shared.record_turn,
        batch_size > 0 || (records.len() == 0 && traces.len() == 0),
    ensures
        ({
            let outcome = worker_step(
                shared,
                WorkerView::<L, P, T>::Generating { index },
                EventView::TracesGenerated { records, traces },
                batch_size,
                fix_shapes,
            );
            if records.len() == 0 || traces.len() == 0 {
                &&& outcome.worker is Receiving
                &&& outcome.action is Receive
                &&& outcome.shared == (CoordinatorView { trace_turn: index + 1, ..shared })
            } else {
                let rest = outcome.worker->rest;
                let from = (i + 1) * batch_size;
                let to = (i + 1 + 1) * batch_size;
                &&& outcome.shared == shared
                &&& outcome.worker is Sending
                &&& outcome.worker->Sending_index == index
                &&& outcome.action is Send
                &&& outcome.action->batch.0 == records.take(
                    min(batch_size as int, records.len() as int),
                )
                &&& outcome.action->batch.1 == traces.take(
                    min(batch_size as int, traces.len() as int),
                )
                &&& i < rest.len() <==> from < records.len() && from < traces.len()
                &&& i < rest.len() ==> rest[i] == (
                    records.subrange(from, min(to, records.len() as int)),
                    traces.subrange(from, min(to, traces.len() as int)),
                )
            }
        }),
{
    let batches = batched(records, traces, batch_size);
    if batch_size > 0 {
        law_batch_in_place(records, traces, batch_size, 0);
        law_batch_in_place(records, traces, batch_size, i + 1);
        assert(0 * batch_size == 0);
    }
    if records.len() > 0 && traces.len() > 0 {
        assert(records.take(min(batch_size as int, records.len() as int)) =~= batches[0].0);
        assert(traces.take(min(batch_size as int, traces.len() as int)) =~= batches[0].1);
    }
}

/// A worker that has sent a batch sends the next one, and keeps the others in their order. After the
/// last one it lets the next worker send, and receives.
pub proof fn law_sending_goes_on<L: Layout, P, T>(
    shared: CoordinatorView<L>,
    index: nat,
    rest: Seq<(Seq<Record<L, P>>, Seq<T>)>,
    batch_size: nat,
    fix_shapes: bool,
)
    ensures
        ({
            let outcome = worker_step(
                shared,
                WorkerView::<L, P, T>::Sending { index, rest },
                EventView::BatchSent,
                batch_size,
                fix_shapes,
            );
            if rest.len() == 0 {
                &&& outcome.worker is Receiving
                &&& outcome.action is Receive
                &&& outcome.shared == (CoordinatorView {
                    trace_turn: shared.trace_turn + 1,
                    ..shared
                })
            } else {
                &&& outcome.worker == (WorkerView::<L, P, T>::Sending {
                    index,
                    rest: rest.subrange(1, rest.len() as int),
                })
                &&& outcome.action == (ActionView::<L, P, T>::Send { batch: rest[0] })
                &&& outcome.shared == shared
            }
        }),
{
}

} // verus!

//! The checkpoint generator: execute up to the next checkpoint, save it, send it to the workers,
//! and go on until the program has ended.
use vstd::prelude::*;

use crate::error::ZKMCoreProverError;

verus! {

/// What the checkpoint generator does next.
pub enum CheckpointGenerator {
    /// Execute the program up to its next checkpoint, which gets the number `index`.
    Executing { index: usize },
    /// Save the checkpoint to a temporary file. `done` says whether the program has ended with it.
    Saving { index: usize, done: bool },
    /// Send the checkpoint to the workers.
    Sending { index: usize, done: bool },
    /// The program has ended and all checkpoints up to number `last` are sent.
    Finished { last: usize },
    /// Nothing more: the run has failed.
    Failed(ZKMCoreProverError),
}

/// What came of the generator's last step.
pub enum GeneratorEvent {
    /// The execution reached a checkpoint, the last one if `done`.
    Executed { done: bool },
    /// The execution failed, with this text.
    ExecutionFailed(String),
    /// The checkpoint is on disk.
    Saved,
    /// The temporary file could not be made or written, with this text.
    IoFailed(String),
    /// The workers have the checkpoint.
    Sent,
}

/// A checkpoint as the workers get it: its number, and whether it is the last.
pub struct Ticket {
    pub index: usize,
    pub done: bool,
}

impl CheckpointGenerator {
    /// Whether `event` can come of the step that `self` asks for, and the checkpoint after it can
    /// be numbered.
    pub open spec fn accepts(self, event: GeneratorEvent) -> bool {
        match (self, event) {
            (CheckpointGenerator::Executing { .. }, GeneratorEvent::Executed { .. }) => true,
            (CheckpointGenerator::Executing { .. }, GeneratorEvent::ExecutionFailed(_)) => true,
            (CheckpointGenerator::Saving { .. }, GeneratorEvent::Saved) => true,
            (CheckpointGenerator::Saving { .. }, GeneratorEvent::IoFailed(_)) => true,
            (CheckpointGenerator::Sending { index, done }, GeneratorEvent::Sent) => done || index
                < usize::MAX,
            _ => false,
        }
    }

    /// The step after `event`.
    pub open spec fn after(self, event: GeneratorEvent) -> CheckpointGenerator {
        match (self, event) {
            (CheckpointGenerator::Executing { index }, GeneratorEvent::Executed { done }) =>
                CheckpointGenerator::Saving { index, done },
            (CheckpointGenerator::Executing { .. }, GeneratorEvent::ExecutionFailed(cause)) =>
                CheckpointGenerator::Failed(ZKMCoreProverError::ExecutionError(cause)),
            (CheckpointGenerator::Saving { index, done }, GeneratorEvent::Saved) =>
                CheckpointGenerator::Sending { index, done },
            (CheckpointGenerator::Saving { .. }, GeneratorEvent::IoFailed(cause)) =>
                CheckpointGenerator::Failed(ZKMCoreProverError::IoError(cause)),
            (CheckpointGenerator::Sending { index, done }, GeneratorEvent::Sent) => if done {
                CheckpointGenerator::Finished { last: index }
            } else {
                CheckpointGenerator::Executing { index: (index + 1) as usize }
            },
            _ => self,
        }
    }

    /// The checkpoint that `event` says the workers got, if it does.
    pub open spec fn sent(self, event: GeneratorEvent) -> Option<Ticket> {
        match (self, event) {
            (CheckpointGenerator::Sending { index, done }, GeneratorEvent::Sent) => Some(
                Ticket { index, done },
            ),
            _ => None,
        }
    }

    /// The generator before the first checkpoint.
    pub fn new() -> (generator: Self)
        ensures
            generator == (CheckpointGenerator::Executing { index: 0 }),
    {
        CheckpointGenerator::Executing { index: 0 }
    }

    /// Whether `event` can come of the step that `self` asks for, and the checkpoint after it can
    /// be numbered.
    pub fn can_take(&self, event: &GeneratorEvent) -> (can: bool)
        ensures
            can == self.accepts(*event),
            can == match *self {
                CheckpointGenerator::Executing { .. } => *event is Executed
                    || *event is ExecutionFailed,
                CheckpointGenerator::Saving { .. } => *event is Saved || *event is IoFailed,
                CheckpointGenerator::Sending { index, done } => *event is Sent && (done || index
                    < usize::MAX),
                CheckpointGenerator::Finished { .. } => false,
                CheckpointGenerator::Failed(_) => false,
            },
    {
        match (self, event) {
            (CheckpointGenerator::Executing { .. }, GeneratorEvent::Executed { .. }) => true,
            (CheckpointGenerator::Executing { .. }, GeneratorEvent::ExecutionFailed(_)) => true,
            (CheckpointGenerator::Saving { .. }, GeneratorEvent::Saved) => true,
            (CheckpointGenerator::Saving { .. }, GeneratorEvent::IoFailed(_)) => true,
            (CheckpointGenerator::Sending { index, done }, GeneratorEvent::Sent) => {
                *done || *index < usize::MAX
            },
            _ => false,
        }
    }

    /// The step after `event`.
    pub fn next(self, event: GeneratorEvent) -> (generator: Self)
        requires
            self.accepts(event),
        ensures
            generator == self.after(event),
            match event {
                GeneratorEvent::Executed { done } => self matches CheckpointGenerator::Executing {
                    index,
                } && generator == (CheckpointGenerator::Saving { index, done }),
                GeneratorEvent::ExecutionFailed(cause) => generator == CheckpointGenerator::Failed(
                    ZKMCoreProverError::ExecutionError(cause),
                ),
                GeneratorEvent::Saved => self matches CheckpointGenerator::Saving { index, done }
                    && generator == (CheckpointGenerator::Sending { index, done }),
                GeneratorEvent::IoFailed(cause) => generator == CheckpointGenerator::Failed(
                    ZKMCoreProverError::IoError(cause),
                ),
                GeneratorEvent::Sent => self matches CheckpointGenerator::Sending { index, done }
                    && if done {
                    generator == (CheckpointGenerator::Finished { last: index })
                } else {
                    generator matches CheckpointGenerator::Executing { index: next } && next
                        == index + 1
                },
            },
    {
        match (self, event) {
            (CheckpointGenerator::Executing { index }, GeneratorEvent::Executed { done }) => {
                CheckpointGenerator::Saving { index, done }
            },
            (CheckpointGenerator::Executing { .. }, GeneratorEvent::ExecutionFailed(cause)) => {
                CheckpointGenerator::Failed(ZKMCoreProverError::ExecutionError(cause))
            },
            (CheckpointGenerator::Saving { index, done }, GeneratorEvent::Saved) => {
                CheckpointGenerator::Sending { index, done }
            },
            (CheckpointGenerator::Saving { .. }, GeneratorEvent::IoFailed(cause)) => {
                CheckpointGenerator::Failed(ZKMCoreProverError::IoError(cause))
            },
            (CheckpointGenerator::Sending { index, done }, GeneratorEvent::Sent) => {
                if done {
                    CheckpointGenerator::Finished { last: index }
                } else {
                    CheckpointGenerator::Executing { index: index + 1 }
                }
            },
            (generator, _) => generator,
        }
    }

    /// What the generator hands back once it has ended: the stream of public values that the
    /// program wrote, or the error that stopped it.
    pub fn outcome(self, public_values_stream: Vec<u8>) -> (outcome: Result<
        Vec<u8>,
        ZKMCoreProverError,
    >)
        requires
            self is Finished || self is Failed,
        ensures
            outcome == match self {
                CheckpointGenerator::Failed(error) => Err(error),
                _ => Ok(public_values_stream),
            },
    {
        match self {
            CheckpointGenerator::Failed(error) => Err(error),
            _ => Ok(public_values_stream),
        }
    }
}

/// Every event of `events` is accepted, from the first step on.
pub open spec fn accepted(events: Seq<GeneratorEvent>) -> bool
    decreases events.len(),
{
    events.len() > 0 ==> {
        &&& accepted(events.drop_last())
        &&& reached(events.drop_last()).accepts(events.last())
    }
}

/// The step that the generator has reached after `events`.
pub open spec fn reached(events: Seq<GeneratorEvent>) -> CheckpointGenerator
    decreases events.len(),
{
    if events.len() == 0 {
        CheckpointGenerator::Executing { index: 0 }
    } else {
        reached(events.drop_last()).after(events.last())
    }
}

/// The checkpoints that the workers got in the course of `events`.
pub open spec fn tickets(events: Seq<GeneratorEvent>) -> Seq<Ticket>
    decreases events.len(),
{
    if events.len() == 0 {
        seq![]
    } else {
        match reached(events.drop_last()).sent(events.last()) {
            Some(ticket) => tickets(events.drop_last()).push(ticket),
            None => tickets(events.drop_last()),
        }
    }
}

/// The number of the checkpoint that the generator is at: as many as it has sent.
pub open spec fn position(generator: CheckpointGenerator, sent: Seq<Ticket>) -> bool {
    match generator {
        CheckpointGenerator::Executing { index } => index == sent.len(),
        CheckpointGenerator::Saving { index, .. } => index == sent.len(),
        CheckpointGenerator::Sending { index, .. } => index == sent.len(),
        CheckpointGenerator::Finished { last } => last + 1 == sent.len(),
        CheckpointGenerator::Failed(_) => true,
    }
}

/// The workers get the checkpoints under the numbers zero, one, two and so on. A checkpoint is
/// marked as the last one just when no other follows it and the generator has finished.
pub proof fn law_tickets(events: Seq<GeneratorEvent>)
    requires
        accepted(events),
    ensures
        position(reached(events), tickets(events)),
        forall|i: int|
            0 <= i < tickets(events).len() ==> (#[trigger] tickets(events)[i]).index == i,
        forall|i: int|
            0 <= i < tickets(events).len() ==> ((#[trigger] tickets(events)[i]).done <==> (i
                == tickets(events).len() - 1 && reached(events) is Finished)),
        reached(events) is Finished ==> tickets(events).len() > 0,
    decreases events.len(),
{
    if events.len() > 0 {
        law_tickets(events.drop_last());
    }
}

/// The order of the events of a run: executed, saved, sent, and so on from the start. A failure comes
/// last, and so does the sending of a checkpoint that ended the program.
pub proof fn law_order_of_events(events: Seq<GeneratorEvent>)
    requires
        accepted(events),
    ensures
        forall|i: int|
            0 <= i < events.len() && i % 3 == 0 ==> {
                ||| (#[trigger] events[i]) is Executed
                ||| events[i] is ExecutionFailed && i == events.len() - 1
            },
        forall|i: int|
            0 <= i < events.len() && i % 3 == 1 ==> {
                ||| (#[trigger] events[i]) is Saved
                ||| events[i] is IoFailed && i == events.len() - 1
            },
        forall|i: int| 0 <= i < events.len() && i % 3 == 2 ==> (#[trigger] events[i]) is Sent,
        forall|i: int|
            0 <= i < events.len() && (#[trigger] events[i]) is Executed && events[i]->done
                ==> events.len() <= i + 3,
    decreases events.len(),
{
    if events.len() > 0 {
        let before = events.drop_last();
        law_order_of_events(before);
        law_position(before);
        law_position(events);
        let len = before.len() as int;
        assert(forall|i: int| 0 <= i < len ==> #[trigger] events[i] == before[i]);
        if len > 0 {
            assert(before.last() == before[len - 1]);
        }
        assert forall|i: int|
            0 <= i < events.len() && (#[trigger] events[i]) is Executed
                && events[i]->done implies events.len() <= i + 3 by {
            if i < len && len == i + 3 {
                assert(before[i] is Executed);
                assert(before[len - 3] == events[i]);
            }
        }
    }
}

/// Where the events of a run lead: to the step after the last of them, for the checkpoint whose
/// number is that of the checkpoints sent before it. Whether the program has ended with a checkpoint
/// is what its execution said.
pub proof fn law_position(events: Seq<GeneratorEvent>)
    requires
        accepted(events),
    ensures
        events.len() == 0 ==> reached(events) == (CheckpointGenerator::Executing { index: 0 }),
        events.len() > 0 ==> {
            let len = events.len() as int;
            match events.last() {
                GeneratorEvent::Executed { done: ended } => {
                    &&& len % 3 == 1
                    &&& reached(events) matches CheckpointGenerator::Saving { index, done }
                    &&& index == len / 3
                    &&& done == ended
                },
                GeneratorEvent::ExecutionFailed(cause) => {
                    &&& len % 3 == 1
                    &&& reached(events) == CheckpointGenerator::Failed(
                        ZKMCoreProverError::ExecutionError(cause),
                    )
                },
                GeneratorEvent::Saved => {
                    &&& len % 3 == 2
                    &&& events[len - 2] is Executed
                    &&& reached(events) matches CheckpointGenerator::Sending { index, done }
                    &&& index == len / 3
                    &&& done == events[len - 2]->done
                },
                GeneratorEvent::IoFailed(cause) => {
                    &&& len % 3 == 2
                    &&& reached(events) == CheckpointGenerator::Failed(
                        ZKMCoreProverError::IoError(cause),
                    )
                },
                GeneratorEvent::Sent => {
                    &&& len % 3 == 0
                    &&& events[len - 3] is Executed
                    &&& if events[len - 3]->done {
                        &&& reached(events) matches CheckpointGenerator::Finished { last }
                        &&& last + 1 == len / 3
                    } else {
                        &&& reached(events) matches CheckpointGenerator::Executing { index }
                        &&& index == len / 3
                    }
                },
            }
        },
    decreases events.len(),
{
    if events.len() > 0 {
        let before = events.drop_last();
        law_position(before);
        if before.len() > 0 {
            assert(before.last() == events[before.len() - 1]);
        }
    }
}

/// Events in the order of a run are accepted, as long as there are numbers for the checkpoints.
pub proof fn law_runs_are_accepted(events: Seq<GeneratorEvent>)
    requires
        events.len() / 3 <= usize::MAX,
        forall|i: int|
            0 <= i < events.len() && i % 3 == 0 ==> {
                ||| (#[trigger] events[i]) is Executed
                ||| events[i] is ExecutionFailed && i == events.len() - 1
            },
        forall|i: int|
            0 <= i < events.len() && i % 3 == 1 ==> {
                ||| (#[trigger] events[i]) is Saved
                ||| events[i] is IoFailed && i == events.len() - 1
            },
        forall|i: int| 0 <= i < events.len() && i % 3 == 2 ==> (#[trigger] events[i]) is Sent,
        forall|i: int|
            0 <= i < events.len() && (#[trigger] events[i]) is Executed && events[i]->done
                ==> events.len() <= i + 3,
    ensures
        accepted(events),
    decreases events.len(),
{
    if events.len() > 0 {
        let before = events.drop_last();
        let len = events.len() as int;
        assert forall|i: int| 0 <= i < before.len() implies events[i] == #[trigger] before[i] by {}
        law_runs_are_accepted(before);
        law_position(before);
        assert(events.last() == events[len - 1]);
        if before.len() > 0 {
            assert(before.last() == events[len - 2]);
        }
        if before.len() >= 3 && before.len() % 3 == 0 {
            assert(before[before.len() - 3] == events[len - 4]);
        }
    }
}

/// That a checkpoint ended the program is up to the execution alone: the workers get the `i`th
/// checkpoint as the last one just when the `i`th execution said that it was. The generator has
/// finished as soon as such a checkpoint is sent, and not before.
pub proof fn law_executions_decide(events: Seq<GeneratorEvent>)
    requires
        accepted(events),
    ensures
        ({
            let executed = events.filter(|event: GeneratorEvent| event is Executed);
            let sent = events.filter(|event: GeneratorEvent| event is Sent);
            &&& tickets(events).len() == sent.len() <= executed.len() <= sent.len() + 1
            &&& forall|i: int|
                0 <= i < sent.len() ==> {
                    &&& (#[trigger] tickets(events)[i]).index == i
                    &&& tickets(events)[i].done == executed[i]->done
                }
            &&& reached(events) is Finished <==> exists|i: int|
                0 <= i < sent.len() && (#[trigger] executed[i])->done
        }),
{
    let is_executed = |event: GeneratorEvent| event is Executed;
    let is_sent = |event: GeneratorEvent| event is Sent;
    law_tickets(events);
    lemma_executions(events);
    let executed = events.filter(is_executed);
    let sent = events.filter(is_sent);
    assert(reached(events) is Finished <==> exists|i: int|
        0 <= i < sent.len() && (#[trigger] executed[i])->done) by {
        if reached(events) is Finished {
            let last = sent.len() - 1;
            assert(tickets(events)[last].done);
            assert(executed[last]->done);
        }
        if exists|i: int| 0 <= i < sent.len() && (#[trigger] executed[i])->done {
            let i = choose|i: int| 0 <= i < sent.len() && (#[trigger] executed[i])->done;
            assert(tickets(events)[i].done);
        }
    }
}

proof fn lemma_executions(events: Seq<GeneratorEvent>)
    requires
        accepted(events),
    ensures
        ({
            let executed = events.filter(|event: GeneratorEvent| event is Executed);
            let sent = events.filter(|event: GeneratorEvent| event is Sent);
            &&& tickets(events).len() == sent.len()
            &&& forall|i: int|
                0 <= i < sent.len() ==> (#[trigger] tickets(events)[i]).done == executed[i]->done
            &&& match reached(events) {
                CheckpointGenerator::Executing { .. } => executed.len() == sent.len(),
                CheckpointGenerator::Saving { done, .. } => executed.len() == sent.len() + 1
                    && executed.last()->done == done,
                CheckpointGenerator::Sending { done, .. } => executed.len() == sent.len() + 1
                    && executed.last()->done == done,
                CheckpointGenerator::Finished { .. } => executed.len() == sent.len(),
                CheckpointGenerator::Failed(_) => sent.len() <= executed.len() <= sent.len() + 1,
            }
        }),
    decreases events.len(),
{
    reveal(Seq::filter);
    let is_executed = |event: GeneratorEvent| event is Executed;
    let is_sent = |event: GeneratorEvent| event is Sent;
    if events.len() > 0 {
        let before = events.drop_last();
        lemma_executions(before);
        let executed = before.filter(is_executed);
        assert(events.filter(is_executed) == if events.last() is Executed {
            executed.push(events.last())
        } else {
            executed
        });
        assert(events.filter(is_sent) == if events.last() is Sent {
            before.filter(is_sent).push(events.last())
        } else {
            before.filter(is_sent)
        });
    }
}

/// An error that stops the generator says what failed: the execution or the disk.
pub proof fn law_failure(events: Seq<GeneratorEvent>)
    requires
        accepted(events),
        reached(events) is Failed,
    ensures
        events.len() > 0,
        match reached(events)->Failed_0 {
            ZKMCoreProverError::ExecutionError(cause) => events.last()
                == GeneratorEvent::ExecutionFailed(cause),
            ZKMCoreProverError::IoError(cause) => events.last() == GeneratorEvent::IoFailed(cause),
            ZKMCoreProverError::SerializationError(_) => false,
        },
{
}

} // verus!

//! The input pump: from the real input to the pseudo-terminal.

use crate::bridge::Flow;
use vstd::prelude::*;

verus! {

/// Where the input pump stands. In `Forwarding` the chunk in flight holds
/// `size` bytes.
#[derive(Clone, Copy, PartialEq, Eq, Debug, Structural)]
pub enum InputPhase {
    Polling,
    Reading,
    Forwarding { size: usize },
    Flushing,
    Waiting,
    Finished,
}

/// What the driver of the input pump reports.
#[derive(Clone, Copy, PartialEq, Eq, Debug, Structural)]
pub enum InputEvent {
    /// The child is still running.
    Alive,
    /// The child has exited.
    Exited,
    /// The read returned this many bytes.
    Read(usize),
    /// The read would have blocked, or returned another error.
    NoInput,
    /// The whole chunk went to the pseudo-terminal.
    Forwarded,
    /// The flush went through.
    Flushed,
    /// The write or the flush returned an error.
    WriteFailed,
    /// The delay is over.
    Slept,
}

/// What the driver of the input pump does next.
#[derive(Clone, Copy, PartialEq, Eq, Debug, Structural)]
pub enum InputAction {
    /// Ask, without waiting, whether the child has exited.
    Poll,
    /// Read from the real input, without waiting.
    Read,
    /// Write the first `size` bytes of the chunk to the pseudo-terminal.
    Forward { size: usize },
    /// Flush the pseudo-terminal.
    Flush,
    /// Sleep for `RETRY_DELAY_MS`.
    Sleep,
    /// End the pump.
    Stop,
}

impl InputPhase {
    /// What to do in each phase.
    pub open spec fn action_spec(self) -> InputAction {
        match self {
            InputPhase::Polling => InputAction::Poll,
            InputPhase::Reading => InputAction::Read,
            InputPhase::Forwarding { size } => InputAction::Forward { size },
            InputPhase::Flushing => InputAction::Flush,
            InputPhase::Waiting => InputAction::Sleep,
            InputPhase::Finished => InputAction::Stop,
        }
    }

    /// The phase after `event`. The child is asked for before every read,
    /// and its exit ends the pump. A read that brings nothing is followed by
    /// a delay. A write that fails ends the pump: the child is gone. An
    /// event that does not answer the action of the phase changes nothing.
    pub open spec fn next_spec(self, event: InputEvent) -> InputPhase {
        match (self, event) {
            (InputPhase::Polling, InputEvent::Alive) => InputPhase::Reading,
            (InputPhase::Polling, InputEvent::Exited) => InputPhase::Finished,
            (InputPhase::Reading, InputEvent::Read(n)) => if n == 0 {
                InputPhase::Waiting
            } else {
                InputPhase::Forwarding { size: n }
            },
            (InputPhase::Reading, InputEvent::NoInput) => InputPhase::Waiting,
            (InputPhase::Forwarding { .. }, InputEvent::Forwarded) => InputPhase::Flushing,
            (InputPhase::Forwarding { .. }, InputEvent::WriteFailed) => InputPhase::Finished,
            (InputPhase::Flushing, InputEvent::Flushed) => InputPhase::Polling,
            (InputPhase::Flushing, InputEvent::WriteFailed) => InputPhase::Finished,
            (InputPhase::Waiting, InputEvent::Slept) => InputPhase::Polling,
            _ => self,
        }
    }

    /// The phase in which the pump starts.
    pub fn start() -> (p: InputPhase)
        ensures
            p == InputPhase::Polling,
    {
        InputPhase::Polling
    }

    /// What to do in this phase.
    pub fn action(self) -> (a: InputAction)
        ensures
            a == self.action_spec(),
    {
        match self {
            InputPhase::Polling => InputAction::Poll,
            InputPhase::Reading => InputAction::Read,
            InputPhase::Forwarding { size } => InputAction::Forward { size },
            InputPhase::Flushing => InputAction::Flush,
            InputPhase::Waiting => InputAction::Sleep,
            InputPhase::Finished => InputAction::Stop,
        }
    }

    /// The phase after `event`.
    pub fn next(self, event: InputEvent) -> (p: InputPhase)
        ensures
            p == self.next_spec(event),
    {
        match (self, event) {
            (InputPhase::Polling, InputEvent::Alive) => InputPhase::Reading,
            (InputPhase::Polling, InputEvent::Exited) => InputPhase::Finished,
            (InputPhase::Reading, InputEvent::Read(n)) => {
                if n == 0 {
                    InputPhase::Waiting
                } else {
                    InputPhase::Forwarding { size: n }
                }
            },
            (InputPhase::Reading, InputEvent::NoInput) => InputPhase::Waiting,
            (InputPhase::Forwarding { .. }, InputEvent::Forwarded) => InputPhase::Flushing,
            (InputPhase::Forwarding { .. }, InputEvent::WriteFailed) => InputPhase::Finished,
            (InputPhase::Flushing, InputEvent::Flushed) => InputPhase::Polling,
            (InputPhase::Flushing, InputEvent::WriteFailed) => InputPhase::Finished,
            (InputPhase::Waiting, InputEvent::Slept) => InputPhase::Polling,
            _ => self,
        }
    }

    /// Whether the pump has ended.
    pub fn is_over(self) -> (r: bool)
        ensures
            r == (self is Finished),
    {
        match self {
            InputPhase::Finished => true,
            _ => false,
        }
    }
}

/// One event of the input pump, with the bytes that a read brought.
pub struct InputStep {
    pub event: InputEvent,
    pub data: Seq<u8>,
}

impl InputStep {
    /// A read brings as many bytes as it reports.
    pub open spec fn well_formed(self) -> bool {
        self.event matches InputEvent::Read(n) ==> self.data.len() == n
    }
}

impl Flow {
    /// The flow after a step of the input pump made in `phase`, when the
    /// driver does what `phase.action_spec()` says: a read in `Reading` brings
    /// a new chunk, and a chunk that is forwarded has gone to the child whole.
    pub open spec fn after_input(self, phase: InputPhase, step: InputStep) -> Flow {
        match (phase, step.event) {
            (InputPhase::Reading, InputEvent::Read(n)) => Flow {
                taken: self.taken + step.data,
                given: self.given,
                chunk: step.data,
            },
            (InputPhase::Forwarding { .. }, InputEvent::Forwarded) => Flow {
                taken: self.taken,
                given: self.given + self.chunk,
                chunk: self.chunk,
            },
            _ => self,
        }
    }

    /// What was taken from the real input is what was given to the child,
    /// followed, while a chunk is in flight, by that chunk. A pump that has
    /// ended may have lost its last chunk to a child that was gone.
    pub open spec fn balanced_input(self, phase: InputPhase) -> bool {
        match phase {
            InputPhase::Forwarding { size } => {
                &&& self.chunk.len() == size
                &&& self.taken == self.given + self.chunk
            },
            InputPhase::Finished => self.given.is_prefix_of(self.taken),
            _ => self.taken == self.given,
        }
    }
}

/// The phase and the flow of an input pump after `steps`, from the start.
pub open spec fn input_flow(steps: Seq<InputStep>) -> (InputPhase, Flow)
    decreases steps.len(),
{
    if steps.len() == 0 {
        (InputPhase::Polling, Flow::empty())
    } else {
        let (phase, flow) = input_flow(steps.drop_last());
        (phase.next_spec(steps.last().event), flow.after_input(phase, steps.last()))
    }
}

/// The child gets the bytes that were typed, each once and in order:
/// whatever the pump has been through, the bytes given are the first of the
/// bytes taken, and all of them whenever the pump asks for the child, reads
/// or waits.
pub proof fn lemma_input_is_what_was_typed(steps: Seq<InputStep>)
    requires
        forall|i: int| 0 <= i < steps.len() ==> (#[trigger] steps[i]).well_formed(),
    ensures
        input_flow(steps).1.balanced_input(input_flow(steps).0),
        input_flow(steps).1.given.is_prefix_of(input_flow(steps).1.taken),
    decreases steps.len(),
{
    if steps.len() > 0 {
        let before = steps.drop_last();
        assert forall|i: int| 0 <= i < before.len() implies (#[trigger] before[i]).well_formed() by {
            assert(before[i] == steps[i]);
        }
        lemma_input_is_what_was_typed(before);
        let (phase, flow) = input_flow(before);
        let step = steps.last();
        assert(step.well_formed());
        match (phase, step.event) {
            (InputPhase::Reading, InputEvent::Read(n)) => {
                if n == 0 {
                    assert(flow.taken + step.data == flow.taken);
                }
            },
            (InputPhase::Forwarding { .. }, InputEvent::WriteFailed) => {
                assert(flow.given.is_prefix_of(flow.given + flow.chunk));
            },
            _ => {},
        }
    }
    let (phase, flow) = input_flow(steps);
    if phase is Forwarding {
        assert(flow.given.is_prefix_of(flow.given + flow.chunk));
    }
}

/// The phase of an input pump after `events`, from the start.
pub open spec fn input_run(events: Seq<InputEvent>) -> InputPhase
    decreases events.len(),
{
    if events.len() == 0 {
        InputPhase::Polling
    } else {
        input_run(events.drop_last()).next_spec(events.last())
    }
}

/// The input pump never comes to read from the real input but by having
/// just seen the child alive: a child that has exited is noticed before the
/// next read.
pub proof fn lemma_read_follows_poll(events: Seq<InputEvent>)
    requires
        events.len() > 0,
        input_run(events) is Reading,
        !(input_run(events.drop_last()) is Reading),
    ensures
        input_run(events.drop_last()) is Polling,
        events.last() is Alive,
{
}

/// Once the child is seen to have exited, the pump is over, and stays so.
pub proof fn lemma_exit_ends_input(events: Seq<InputEvent>, more: Seq<InputEvent>)
    requires
        input_run(events) is Polling,
    ensures
        input_run(events.push(InputEvent::Exited) + more) is Finished,
    decreases more.len(),
{
    let all = events.push(InputEvent::Exited) + more;
    if more.len() == 0 {
        assert(all == events.push(InputEvent::Exited));
        assert(all.drop_last() == events);
    } else {
        lemma_exit_ends_input(events, more.drop_last());
        assert(all.drop_last() == events.push(InputEvent::Exited) + more.drop_last());
        assert(all.last() == more.last());
    }
}

} // verus!

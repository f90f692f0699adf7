//! The output pump: from the pseudo-terminal to the real output.

use crate::bridge::Flow;
use vstd::prelude::*;

verus! {

/// Where the output pump stands. In `Writing` and `WriteBlocked` the chunk
/// in flight holds `size` bytes, of which the first `written` have been
/// taken by the real output.
#[derive(Clone, Copy, PartialEq, Eq, Debug, Structural)]
pub enum OutputPhase {
    Reading,
    Writing { written: usize, size: usize },
    WriteBlocked { written: usize, size: usize },
    Flushing,
    FlushBlocked,
    Finished,
    Failed,
}

/// What the driver of the output pump reports.
#[derive(Clone, Copy, PartialEq, Eq, Debug, Structural)]
pub enum OutputEvent {
    /// The read returned this many bytes.
    Read(usize),
    /// The read returned an error.
    ReadFailed,
    /// The write took this many bytes.
    Wrote(usize),
    /// The write or the flush would have blocked.
    WouldBlock,
    /// The write or the flush returned another error.
    Failed,
    /// The flush went through.
    Flushed,
    /// The delay is over.
    Slept,
}

/// What the driver of the output pump does next.
#[derive(Clone, Copy, PartialEq, Eq, Debug, Structural)]
pub enum OutputAction {
    /// Read the next chunk from the pseudo-terminal.
    Read,
    /// Write the bytes `from..to` of the chunk to the real output.
    Write { from: usize, to: usize },
    /// Flush the real output.
    Flush,
    /// Sleep for `RETRY_DELAY_MS`.
    Sleep,
    /// End the pump: the child has closed its output.
    Stop,
    /// End the pump: the real output is broken.
    Abort,
}

impl OutputPhase {
    /// Part of the chunk in flight is still to be written.
    pub open spec fn well_formed(self) -> bool {
        match self {
            OutputPhase::Writing { written, size } => written < size,
            OutputPhase::WriteBlocked { written, size } => written < size,
            _ => true,
        }
    }

    /// What to do in each phase.
    pub open spec fn action_spec(self) -> OutputAction {
        match self {
            OutputPhase::Reading => OutputAction::Read,
            OutputPhase::Writing { written, size } => OutputAction::Write {
                from: written,
                to: size,
            },
            OutputPhase::WriteBlocked { .. } => OutputAction::Sleep,
            OutputPhase::Flushing => OutputAction::Flush,
            OutputPhase::FlushBlocked => OutputAction::Sleep,
            OutputPhase::Finished => OutputAction::Stop,
            OutputPhase::Failed => OutputAction::Abort,
        }
    }

    /// The phase after `event`. A read of no bytes, or a failed read, ends
    /// the pump. A write that would block is tried again after a delay; any
    /// other error of the real output breaks the pump. A write that claims
    /// more than was offered counts as one that took all of it. An event
    /// that does not answer the action of the phase changes nothing.
    pub open spec fn next_spec(self, event: OutputEvent) -> OutputPhase {
        match (self, event) {
            (OutputPhase::Reading, OutputEvent::Read(n)) => if n == 0 {
                OutputPhase::Finished
            } else {
                OutputPhase::Writing { written: 0, size: n }
            },
            (OutputPhase::Reading, OutputEvent::ReadFailed) => OutputPhase::Finished,
            (OutputPhase::Writing { written, size }, OutputEvent::Wrote(k)) => if written + k
                >= size {
                OutputPhase::Flushing
            } else {
                OutputPhase::Writing { written: (written + k) as usize, size }
            },
            (OutputPhase::Writing { written, size }, OutputEvent::WouldBlock) => {
                OutputPhase::WriteBlocked { written, size }
            },
            (OutputPhase::Writing { .. }, OutputEvent::Failed) => OutputPhase::Failed,
            (OutputPhase::WriteBlocked { written, size }, OutputEvent::Slept) => {
                OutputPhase::Writing { written, size }
            },
            (OutputPhase::Flushing, OutputEvent::Flushed) => OutputPhase::Reading,
            (OutputPhase::Flushing, OutputEvent::WouldBlock) => OutputPhase::FlushBlocked,
            (OutputPhase::Flushing, OutputEvent::Failed) => OutputPhase::Failed,
            (OutputPhase::FlushBlocked, OutputEvent::Slept) => OutputPhase::Flushing,
            _ => self,
        }
    }

    /// The phase in which the pump starts.
    pub fn start() -> (p: OutputPhase)
        ensures
            p == OutputPhase::Reading,
            p.well_formed(),
    {
        OutputPhase::Reading
    }

    /// What to do in this phase.
    pub fn action(self) -> (a: OutputAction)
        ensures
            a == self.action_spec(),
            self.well_formed() ==> (a matches OutputAction::Write { from, to } ==> from < to),
    {
        match self {
            OutputPhase::Reading => OutputAction::Read,
            OutputPhase::Writing { written, size } => OutputAction::Write {
                from: written,
                to: size,
            },
            OutputPhase::WriteBlocked { .. } => OutputAction::Sleep,
            OutputPhase::Flushing => OutputAction::Flush,
            OutputPhase::FlushBlocked => OutputAction::Sleep,
            OutputPhase::Finished => OutputAction::Stop,
            OutputPhase::Failed => OutputAction::Abort,
        }
    }

    /// The phase after `event`.
    pub fn next(self, event: OutputEvent) -> (p: OutputPhase)
        ensures
            p == self.next_spec(event),
            self.well_formed() ==> p.well_formed(),
    {
        match (self, event) {
            (OutputPhase::Reading, OutputEvent::Read(n)) => {
                if n == 0 {
                    OutputPhase::Finished
                } else {
                    OutputPhase::Writing { written: 0, size: n }
                }
            },
            (OutputPhase::Reading, OutputEvent::ReadFailed) => OutputPhase::Finished,
            (OutputPhase::Writing { written, size }, OutputEvent::Wrote(k)) => {
                if k >= size || written >= size - k {
                    OutputPhase::Flushing
                } else {
                    OutputPhase::Writing { written: written + k, size }
                }
            },
            (OutputPhase::Writing { written, size }, OutputEvent::WouldBlock) => {
                OutputPhase::WriteBlocked { written, size }
            },
            (OutputPhase::Writing { .. }, OutputEvent::Failed) => OutputPhase::Failed,
            (OutputPhase::WriteBlocked { written, size }, OutputEvent::Slept) => {
                OutputPhase::Writing { written, size }
            },
            (OutputPhase::Flushing, OutputEvent::Flushed) => OutputPhase::Reading,
            (OutputPhase::Flushing, OutputEvent::WouldBlock) => OutputPhase::FlushBlocked,
            (OutputPhase::Flushing, OutputEvent::Failed) => OutputPhase::Failed,
            (OutputPhase::FlushBlocked, OutputEvent::Slept) => OutputPhase::Flushing,
            _ => self,
        }
    }

    /// Whether the pump has ended.
    pub fn is_over(self) -> (r: bool)
        ensures
            r == (self is Finished || self is Failed),
    {
        match self {
            OutputPhase::Finished => true,
            OutputPhase::Failed => true,
            _ => false,
        }
    }
}

/// One event of the output pump, with the bytes that a read brought.
pub struct OutputStep {
    pub event: OutputEvent,
    pub data: Seq<u8>,
}

impl OutputStep {
    /// A read brings as many bytes as it reports.
    pub open spec fn well_formed(self) -> bool {
        self.event matches OutputEvent::Read(n) ==> self.data.len() == n
    }
}

impl Flow {
    /// The flow after a step of the output pump made in `phase`, when the
    /// driver does what `phase.action_spec()` says: a read in `Reading`
    /// brings a new chunk, a write in `Writing` passes on the bytes it took,
    /// from where the last write stopped.
    pub open spec fn after_output(self, phase: OutputPhase, step: OutputStep) -> Flow {
        match (phase, step.event) {
            (OutputPhase::Reading, OutputEvent::Read(n)) => Flow {
                taken: self.taken + step.data,
                given: self.given,
                chunk: step.data,
            },
            (OutputPhase::Writing { written, size }, OutputEvent::Wrote(k)) => {
                let upto = if written + k >= size {
                    size as int
                } else {
                    written + k
                };
                Flow {
                    taken: self.taken,
                    given: self.given + self.chunk.subrange(written as int, upto),
                    chunk: self.chunk,
                }
            },
            _ => self,
        }
    }

    /// What was taken from the pseudo-terminal is what was given to the real
    /// output, followed by the rest of the chunk in flight. Of a pump that
    /// broke, the rest of its last chunk is lost.
    pub open spec fn balanced_output(self, phase: OutputPhase) -> bool {
        match phase {
            OutputPhase::Writing { written, size } => {
                &&& self.chunk.len() == size
                &&& self.taken == self.given + self.chunk.skip(written as int)
            },
            OutputPhase::WriteBlocked { written, size } => {
                &&& self.chunk.len() == size
                &&& self.taken == self.given + self.chunk.skip(written as int)
            },
            OutputPhase::Failed => self.given.is_prefix_of(self.taken),
            _ => self.taken == self.given,
        }
    }
}

/// The phase and the flow of an output pump after `steps`, from the start.
pub open spec fn output_run(steps: Seq<OutputStep>) -> (OutputPhase, Flow)
    decreases steps.len(),
{
    if steps.len() == 0 {
        (OutputPhase::Reading, Flow::empty())
    } else {
        let (phase, flow) = output_run(steps.drop_last());
        (phase.next_spec(steps.last().event), flow.after_output(phase, steps.last()))
    }
}

/// One step keeps the flow balanced.
pub proof fn lemma_step_keeps_balance(phase: OutputPhase, flow: Flow, step: OutputStep)
    requires
        phase.well_formed(),
        flow.balanced_output(phase),
        step.well_formed(),
    ensures
        phase.next_spec(step.event).well_formed(),
        flow.after_output(phase, step).balanced_output(phase.next_spec(step.event)),
{
    let after = flow.after_output(phase, step);
    match (phase, step.event) {
        (OutputPhase::Reading, OutputEvent::Read(n)) => {
            assert(step.data.skip(0) == step.data);
            if n == 0 {
                assert(flow.taken + step.data == flow.taken);
            }
        },
        (OutputPhase::Writing { written, size }, OutputEvent::Wrote(k)) => {
            let upto = if written + k >= size {
                size as int
            } else {
                written + k
            };
            assert(flow.chunk.skip(written as int) == flow.chunk.subrange(written as int, upto)
                + flow.chunk.skip(upto));
            assert(after.given + flow.chunk.skip(upto) == flow.taken);
            if written + k >= size {
                assert(flow.chunk.skip(upto) == Seq::<u8>::empty());
                assert(after.given + Seq::<u8>::empty() == after.given);
            }
        },
        (OutputPhase::Writing { written, size }, OutputEvent::Failed) => {},
        (OutputPhase::Flushing, OutputEvent::Failed) => {},
        _ => {},
    }
}

/// The real output gets the bytes that the child wrote, each once and in
/// order: whatever the pump has been through, the bytes given are the bytes
/// taken, less the rest of the chunk in flight. When the pump has finished,
/// or waits for the next chunk, nothing is in flight.
pub proof fn lemma_output_is_what_was_read(steps: Seq<OutputStep>)
    requires
        forall|i: int| 0 <= i < steps.len() ==> (#[trigger] steps[i]).well_formed(),
    ensures
        output_run(steps).0.well_formed(),
        output_run(steps).1.balanced_output(output_run(steps).0),
        output_run(steps).1.given.is_prefix_of(output_run(steps).1.taken),
        output_run(steps).0 is Finished || output_run(steps).0 is Reading ==> output_run(
            steps,
        ).1.given == output_run(steps).1.taken,
    decreases steps.len(),
{
    if steps.len() > 0 {
        let before = steps.drop_last();
        assert forall|i: int| 0 <= i < before.len() implies (#[trigger] before[i]).well_formed() by {
            assert(before[i] == steps[i]);
        }
        lemma_output_is_what_was_read(before);
        let (phase, flow) = output_run(before);
        lemma_step_keeps_balance(phase, flow, steps.last());
    }
    let (phase, flow) = output_run(steps);
    match phase {
        OutputPhase::Writing { written, size } => {
            assert(flow.given.is_prefix_of(flow.given + flow.chunk.skip(written as int)));
        },
        OutputPhase::WriteBlocked { written, size } => {
            assert(flow.given.is_prefix_of(flow.given + flow.chunk.skip(written as int)));
        },
        _ => {},
    }
}

} // verus!

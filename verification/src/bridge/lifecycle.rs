//! The bridge itself: the order of the steps around the pumps.

use vstd::prelude::*;

verus! {

/// Where the bridge stands. In `Restoring`, `fatal` says that a step has
/// failed and that the bridge will abort once the terminal is restored.
#[derive(Clone, Copy, PartialEq, Eq, Debug, Structural)]
pub enum BridgePhase {
    EnteringRawMode,
    SettingNonBlocking,
    OpeningPty,
    Spawning,
    StartingPumps,
    Pumping { input_done: bool, output_done: bool },
    Reaping,
    Restoring { fatal: bool },
    Closed,
    Aborted,
}

/// What the driver of the bridge reports.
#[derive(Clone, Copy, PartialEq, Eq, Debug, Structural)]
pub enum BridgeEvent {
    /// The step went through. After `WaitForChild`: the child's exit status
    /// was collected, whatever it is.
    Done,
    /// The step failed.
    Failed,
    /// The input pump has ended and its thread is joined.
    InputPumpJoined,
    /// The output pump has ended and its thread is joined.
    OutputPumpJoined,
}

/// What the driver of the bridge does next.
#[derive(Clone, Copy, PartialEq, Eq, Debug, Structural)]
pub enum BridgeAction {
    /// Put the terminal into raw mode.
    EnterRawMode,
    /// Make reads from the real input return at once.
    SetNonBlocking,
    /// Open a pseudo-terminal of the planned geometry.
    OpenPty,
    /// Start the program on the slave side, in the planned directory.
    Spawn,
    /// Start the two pumps, each on a thread of its own.
    StartPumps,
    /// Wait for the input pump to end.
    JoinInputPump,
    /// Wait for the output pump to end.
    JoinOutputPump,
    /// Wait for the child to exit.
    WaitForChild,
    /// Make reads from the real input wait again, and leave raw mode.
    Restore,
    /// Go back to the prompt.
    Return,
    /// End the shell.
    Abort,
}

impl BridgePhase {
    /// What to do in each phase. The input pump is joined first.
    pub open spec fn action_spec(self) -> BridgeAction {
        match self {
            BridgePhase::EnteringRawMode => BridgeAction::EnterRawMode,
            BridgePhase::SettingNonBlocking => BridgeAction::SetNonBlocking,
            BridgePhase::OpeningPty => BridgeAction::OpenPty,
            BridgePhase::Spawning => BridgeAction::Spawn,
            BridgePhase::StartingPumps => BridgeAction::StartPumps,
            BridgePhase::Pumping { input_done, .. } => if input_done {
                BridgeAction::JoinOutputPump
            } else {
                BridgeAction::JoinInputPump
            },
            BridgePhase::Reaping => BridgeAction::WaitForChild,
            BridgePhase::Restoring { .. } => BridgeAction::Restore,
            BridgePhase::Closed => BridgeAction::Return,
            BridgePhase::Aborted => BridgeAction::Abort,
        }
    }

    /// The phase after `event`. The steps follow one another. The pumps may
    /// end in either order; the child is waited for when both are joined. A step that fails is fatal,
    /// but whatever was changed on the terminal is restored first. An event
    /// that does not answer the action of the phase changes nothing.
    pub open spec fn next_spec(self, event: BridgeEvent) -> BridgePhase {
        match (self, event) {
            (BridgePhase::EnteringRawMode, BridgeEvent::Done) => BridgePhase::SettingNonBlocking,
            (BridgePhase::EnteringRawMode, BridgeEvent::Failed) => BridgePhase::Aborted,
            (BridgePhase::SettingNonBlocking, BridgeEvent::Done) => BridgePhase::OpeningPty,
            (BridgePhase::OpeningPty, BridgeEvent::Done) => BridgePhase::Spawning,
            (BridgePhase::Spawning, BridgeEvent::Done) => BridgePhase::StartingPumps,
            (BridgePhase::StartingPumps, BridgeEvent::Done) => BridgePhase::Pumping {
                input_done: false,
                output_done: false,
            },
            (BridgePhase::Pumping { input_done, output_done }, BridgeEvent::InputPumpJoined) => {
                if output_done {
                    BridgePhase::Reaping
                } else {
                    BridgePhase::Pumping { input_done: true, output_done }
                }
            },
            (BridgePhase::Pumping { input_done, output_done }, BridgeEvent::OutputPumpJoined) => {
                if input_done {
                    BridgePhase::Reaping
                } else {
                    BridgePhase::Pumping { input_done, output_done: true }
                }
            },
            (BridgePhase::Reaping, BridgeEvent::Done) => BridgePhase::Restoring { fatal: false },
            (BridgePhase::SettingNonBlocking, BridgeEvent::Failed) => BridgePhase::Restoring {
                fatal: true,
            },
            (BridgePhase::OpeningPty, BridgeEvent::Failed) => BridgePhase::Restoring {
                fatal: true,
            },
            (BridgePhase::Spawning, BridgeEvent::Failed) => BridgePhase::Restoring { fatal: true },
            (BridgePhase::StartingPumps, BridgeEvent::Failed) => BridgePhase::Restoring {
                fatal: true,
            },
            (BridgePhase::Reaping, BridgeEvent::Failed) => BridgePhase::Restoring { fatal: true },
            (BridgePhase::Restoring { fatal }, BridgeEvent::Done) => if fatal {
                BridgePhase::Aborted
            } else {
                BridgePhase::Closed
            },
            (BridgePhase::Restoring { .. }, BridgeEvent::Failed) => BridgePhase::Aborted,
            _ => self,
        }
    }

    /// Whether the terminal is in raw mode on the bridge's account.
    pub open spec fn holds_raw_mode(self) -> bool {
        !(self is EnteringRawMode || self is Closed || self is Aborted)
    }

    /// The phase in which the bridge starts.
    pub fn start() -> (p: BridgePhase)
        ensures
            p == BridgePhase::EnteringRawMode,
    {
        BridgePhase::EnteringRawMode
    }

    /// What to do in this phase.
    pub fn action(self) -> (a: BridgeAction)
        ensures
            a == self.action_spec(),
    {
        match self {
            BridgePhase::EnteringRawMode => BridgeAction::EnterRawMode,
            BridgePhase::SettingNonBlocking => BridgeAction::SetNonBlocking,
            BridgePhase::OpeningPty => BridgeAction::OpenPty,
            BridgePhase::Spawning => BridgeAction::Spawn,
            BridgePhase::StartingPumps => BridgeAction::StartPumps,
            BridgePhase::Pumping { input_done, .. } => {
                if input_done {
                    BridgeAction::JoinOutputPump
                } else {
                    BridgeAction::JoinInputPump
                }
            },
            BridgePhase::Reaping => BridgeAction::WaitForChild,
            BridgePhase::Restoring { .. } => BridgeAction::Restore,
            BridgePhase::Closed => BridgeAction::Return,
            BridgePhase::Aborted => BridgeAction::Abort,
        }
    }

    /// The phase after `event`.
    pub fn next(self, event: BridgeEvent) -> (p: BridgePhase)
        ensures
            p == self.next_spec(event),
    {
        match (self, event) {
            (BridgePhase::EnteringRawMode, BridgeEvent::Done) => BridgePhase::SettingNonBlocking,
            (BridgePhase::EnteringRawMode, BridgeEvent::Failed) => BridgePhase::Aborted,
            (BridgePhase::SettingNonBlocking, BridgeEvent::Done) => BridgePhase::OpeningPty,
            (BridgePhase::OpeningPty, BridgeEvent::Done) => BridgePhase::Spawning,
            (BridgePhase::Spawning, BridgeEvent::Done) => BridgePhase::StartingPumps,
            (BridgePhase::StartingPumps, BridgeEvent::Done) => BridgePhase::Pumping {
                input_done: false,
                output_done: false,
            },
            (BridgePhase::Pumping { input_done, output_done }, BridgeEvent::InputPumpJoined) => {
                if output_done {
                    BridgePhase::Reaping
                } else {
                    BridgePhase::Pumping { input_done: true, output_done }
                }
            },
            (BridgePhase::Pumping { input_done, output_done }, BridgeEvent::OutputPumpJoined) => {
                if input_done {
                    BridgePhase::Reaping
                } else {
                    BridgePhase::Pumping { input_done, output_done: true }
                }
            },
            (BridgePhase::Reaping, BridgeEvent::Done) => BridgePhase::Restoring { fatal: false },
            (BridgePhase::SettingNonBlocking, BridgeEvent::Failed) => BridgePhase::Restoring {
                fatal: true,
            },
            (BridgePhase::OpeningPty, BridgeEvent::Failed) => BridgePhase::Restoring {
                fatal: true,
            },
            (BridgePhase::Spawning, BridgeEvent::Failed) => BridgePhase::Restoring { fatal: true },
            (BridgePhase::StartingPumps, BridgeEvent::Failed) => BridgePhase::Restoring {
                fatal: true,
            },
            (BridgePhase::Reaping, BridgeEvent::Failed) => BridgePhase::Restoring { fatal: true },
            (BridgePhase::Restoring { fatal }, BridgeEvent::Done) => {
                if fatal {
                    BridgePhase::Aborted
                } else {
                    BridgePhase::Closed
                }
            },
            (BridgePhase::Restoring { .. }, BridgeEvent::Failed) => BridgePhase::Aborted,
            _ => self,
        }
    }

    /// Whether the bridge has ended.
    pub fn is_over(self) -> (r: bool)
        ensures
            r == (self is Closed || self is Aborted),
    {
        match self {
            BridgePhase::Closed => true,
            BridgePhase::Aborted => true,
            _ => false,
        }
    }
}

/// The phase of a bridge after `events`, from the start.
pub open spec fn bridge_run(events: Seq<BridgeEvent>) -> BridgePhase
    decreases events.len(),
{
    if events.len() == 0 {
        BridgePhase::EnteringRawMode
    } else {
        bridge_run(events.drop_last()).next_spec(events.last())
    }
}

/// Somewhere in `events` the bridge stood in `Reaping` and was told that the
/// child's exit status had been collected.
pub open spec fn child_was_reaped(events: Seq<BridgeEvent>) -> bool {
    exists|k: int|
        0 <= k < events.len() && #[trigger] bridge_run(events.take(k)) is Reaping && events[k]
            is Done
}

/// Somewhere in `events` the bridge stood in `Restoring` and was told that
/// the terminal had been restored.
pub open spec fn terminal_was_restored(events: Seq<BridgeEvent>) -> bool {
    exists|k: int|
        0 <= k < events.len() && #[trigger] bridge_run(events.take(k)) is Restoring && events[k]
            is Done
}

/// What the events so far must hold for the bridge to stand where it does.
pub open spec fn bridge_history(events: Seq<BridgeEvent>) -> bool {
    let phase = bridge_run(events);
    &&& phase matches BridgePhase::Pumping { input_done, output_done } ==> {
        &&& input_done ==> events.contains(BridgeEvent::InputPumpJoined)
        &&& output_done ==> events.contains(BridgeEvent::OutputPumpJoined)
    }
    &&& phase is Reaping || phase == (BridgePhase::Restoring { fatal: false }) || phase is Closed
        ==> events.contains(BridgeEvent::InputPumpJoined) && events.contains(
        BridgeEvent::OutputPumpJoined,
    )
    &&& phase == (BridgePhase::Restoring { fatal: false }) || phase is Closed ==> child_was_reaped(
        events,
    )
    &&& phase is Closed ==> terminal_was_restored(events)
}

/// The bridge returns to the prompt only after both pumps were joined, the
/// child's exit status was collected, and the terminal was restored.
pub proof fn lemma_bridge_closes_in_order(events: Seq<BridgeEvent>)
    ensures
        bridge_history(events),
        bridge_run(events) is Closed ==> {
            &&& events.contains(BridgeEvent::InputPumpJoined)
            &&& events.contains(BridgeEvent::OutputPumpJoined)
            &&& child_was_reaped(events)
            &&& terminal_was_restored(events)
        },
    decreases events.len(),
{
    if events.len() > 0 {
        let before = events.drop_last();
        let n = before.len() as int;
        lemma_bridge_closes_in_order(before);
        assert(events.take(n) == before);
        assert forall|e: BridgeEvent| before.contains(e) implies events.contains(e) by {
            let i = choose|i: int| 0 <= i < before.len() && before[i] == e;
            assert(events[i] == e);
        }
        assert(events[n] == events.last());
        if child_was_reaped(before) {
            let k = choose|k: int|
                0 <= k < before.len() && #[trigger] bridge_run(before.take(k)) is Reaping
                    && before[k] is Done;
            assert(events.take(k) == before.take(k));
            assert(events[k] == before[k]);
        }
        if terminal_was_restored(before) {
            let k = choose|k: int|
                0 <= k < before.len() && #[trigger] bridge_run(before.take(k)) is Restoring
                    && before[k] is Done;
            assert(events.take(k) == before.take(k));
            assert(events[k] == before[k]);
        }
    }
}

/// A bridge that has ended holds no raw mode, and one that has started does
/// not ask for raw mode a second time: the scope of raw mode is entered once
/// and left once.
pub proof fn lemma_raw_mode_is_scoped(phase: BridgePhase, event: BridgeEvent)
    ensures
        phase.holds_raw_mode() ==> phase.action_spec() != BridgeAction::EnterRawMode,
        phase.action_spec() == BridgeAction::Return || phase.action_spec() == BridgeAction::Abort
            ==> !phase.holds_raw_mode(),
        phase.holds_raw_mode() && !phase.next_spec(event).holds_raw_mode() ==> phase
            is Restoring,
        !phase.holds_raw_mode() && phase.next_spec(event).holds_raw_mode() ==> phase
            is EnteringRawMode && event is Done,
{
}

} // verus!

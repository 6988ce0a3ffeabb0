//! The run's states, and what to do on each outcome of asking the frame source.
use vstd::prelude::*;

verus! {

/// Where a run stands.
#[derive(Clone, Copy, Debug, PartialEq, Eq, Structural)]
pub enum RunState {
    /// No frame has been asked for yet.
    Start,
    /// At least one frame has been asked for and the run goes on.
    Running,
    /// The source has ended; the run finished cleanly.
    Draining,
    /// The source failed; the run stopped with an error.
    Failed,
}

/// What the frame source answered, or that the frame it gave could not be processed.
#[derive(Clone, Copy, Debug, PartialEq, Eq, Structural)]
pub enum SourceEvent {
    Frame,
    EndOfStream,
    SourceError,
    /// The frame just given was malformed, too short, or out of the time range.
    FrameRejected,
}

/// What the driver does next.
#[derive(Clone, Copy, Debug, PartialEq, Eq, Structural)]
pub enum Action {
    /// Process the frame and ask for the next one.
    ProcessFrame,
    /// Drop the frame without a record and ask for the next one.
    SkipFrame,
    /// Stop with success.
    Finish,
    /// Stop and surface the source's error.
    Abort,
}

/// The next state and action. A frame is processed; a source error stops the run; a
/// rejected frame is skipped when `skip_rejected` is set and stops the run otherwise; the
/// end of the stream finishes it, except before any frame when `empty_is_error` is set.
pub open spec fn transition(
    state: RunState,
    event: SourceEvent,
    empty_is_error: bool,
    skip_rejected: bool,
) -> (RunState, Action) {
    match event {
        SourceEvent::FrameRejected => if skip_rejected {
            (RunState::Running, Action::SkipFrame)
        } else {
            (RunState::Failed, Action::Abort)
        },
        SourceEvent::Frame => (RunState::Running, Action::ProcessFrame),
        SourceEvent::SourceError => (RunState::Failed, Action::Abort),
        SourceEvent::EndOfStream => if state == RunState::Start && empty_is_error {
            (RunState::Failed, Action::Abort)
        } else {
            (RunState::Draining, Action::Finish)
        },
    }
}

/// The next state and action of a run that has not stopped.
pub fn on_event(state: RunState, event: SourceEvent, empty_is_error: bool, skip_rejected: bool) -> (r: (
    RunState,
    Action,
))
    requires
        state == RunState::Start || state == RunState::Running,
    ensures
        r == transition(state, event, empty_is_error, skip_rejected),
{
    match event {
        SourceEvent::FrameRejected => {
            if skip_rejected {
                (RunState::Running, Action::SkipFrame)
            } else {
                (RunState::Failed, Action::Abort)
            }
        },
        SourceEvent::Frame => (RunState::Running, Action::ProcessFrame),
        SourceEvent::SourceError => (RunState::Failed, Action::Abort),
        SourceEvent::EndOfStream => {
            if state == RunState::Start && empty_is_error {
                (RunState::Failed, Action::Abort)
            } else {
                (RunState::Draining, Action::Finish)
            }
        },
    }
}

} // verus!

use mqtt_features::driver::{on_event, Action, RunState, SourceEvent};

#[test]
fn frame_keeps_running() {
    assert_eq!(on_event(RunState::Start, SourceEvent::Frame, true, true), (RunState::Running, Action::ProcessFrame));
    assert_eq!(on_event(RunState::Running, SourceEvent::Frame, false, true), (RunState::Running, Action::ProcessFrame));
}

#[test]
fn end_of_stream_finishes() {
    assert_eq!(on_event(RunState::Running, SourceEvent::EndOfStream, true, true), (RunState::Draining, Action::Finish));
    assert_eq!(on_event(RunState::Start, SourceEvent::EndOfStream, false, true), (RunState::Draining, Action::Finish));
}

#[test]
fn empty_source_can_be_an_error() {
    assert_eq!(on_event(RunState::Start, SourceEvent::EndOfStream, true, true), (RunState::Failed, Action::Abort));
}

#[test]
fn source_error_aborts() {
    assert_eq!(on_event(RunState::Running, SourceEvent::SourceError, false, true), (RunState::Failed, Action::Abort));
    assert_eq!(on_event(RunState::Start, SourceEvent::SourceError, true, true), (RunState::Failed, Action::Abort));
}

#[test]
fn rejected_frame_is_skipped_or_aborts() {
    assert_eq!(
        on_event(RunState::Running, SourceEvent::FrameRejected, true, true),
        (RunState::Running, Action::SkipFrame)
    );
    assert_eq!(
        on_event(RunState::Start, SourceEvent::FrameRejected, false, false),
        (RunState::Failed, Action::Abort)
    );
    // after a skipped frame the run goes on and ends cleanly
    assert_eq!(
        on_event(RunState::Running, SourceEvent::EndOfStream, true, true),
        (RunState::Draining, Action::Finish)
    );
}

use fx_line::hotkey::{self, Change, KeyOutcome, PASTE_TIMEOUT_NANOS};
use fx_line::indicator::{shown, Handle as Indicator, Painter, Phase, Tone, POSITION_TICKS};
use fx_line::platform::capture::Handle as Capture;
use fx_line::platform::daemon::{finished, Event, Worker};
use fx_line::platform::hotkey::{
    KeyAction, State, ANSI_V, CONTROL, ESCAPE, FLAG_COMMAND, FLAG_CONTROL, FLAG_SECONDARY_FN,
    FUNCTION, RIGHT_CONTROL, TRANSCRIPT_TIMEOUT_NANOS,
};

#[test]
fn tracks_function_and_control_without_consuming_them() {
    let mut state = State::default();
    assert_eq!(state.modifier_changed(FUNCTION, FLAG_SECONDARY_FN), None);
    assert_eq!(state.modifier_changed(CONTROL, FLAG_CONTROL), Some(true));
    assert_eq!(state.modifier_changed(CONTROL, 0), Some(false));
}

#[test]
fn handles_function_events_without_the_function_flag() {
    let mut state = State::default();
    assert_eq!(state.modifier_changed(FUNCTION, 0), None);
    assert!(state.function_down);
    assert_eq!(state.modifier_changed(CONTROL, FLAG_CONTROL), Some(true));
}

#[test]
fn state_starts_idle() {
    let state = hotkey::State::default();
    assert!(!state.combo_down);
    assert!(state.waiting_since.is_none());
}

#[test]
fn releasing_the_hotkey_starts_the_wait_for_a_transcript() {
    let mut state = State::new();
    assert_eq!(state.modifiers_changed(RIGHT_CONTROL, FLAG_CONTROL, 1), None);
    assert_eq!(state.modifiers_changed(FUNCTION, FLAG_SECONDARY_FN | FLAG_CONTROL, 2), Some(true));
    assert_eq!(state.waiting_since, None);
    assert_eq!(state.modifiers_changed(FUNCTION, FLAG_CONTROL, 3), Some(false));
    assert_eq!(state.waiting_since, Some(3));
    assert_eq!(state.key_down(ANSI_V, 0, 4), KeyAction::Ignore);
    assert_eq!(state.key_down(ANSI_V, FLAG_COMMAND, 5), KeyAction::Paste);
    assert_eq!(state.waiting_since, None);
    assert_eq!(state.key_down(ESCAPE, 0, 6), KeyAction::Ignore);
}

#[test]
fn escape_cancels_a_held_hotkey_or_a_wait() {
    let mut state = State::new();
    state.modifiers_changed(CONTROL, FLAG_CONTROL, 0);
    state.modifiers_changed(FUNCTION, FLAG_SECONDARY_FN, 0);
    assert!(state.combo_down);
    assert_eq!(state.key_down(ESCAPE, 0, 1), KeyAction::Cancel);
    assert!(!state.combo_down);
    let mut waiting = State::new();
    waiting.waiting_since = Some(10);
    assert_eq!(waiting.key_down(ESCAPE, 0, 10 + TRANSCRIPT_TIMEOUT_NANOS), KeyAction::Cancel);
    let mut late = State::new();
    late.waiting_since = Some(10);
    assert_eq!(late.key_down(ANSI_V, FLAG_COMMAND, 11 + TRANSCRIPT_TIMEOUT_NANOS), KeyAction::Ignore);
}

#[test]
fn the_older_hotkey_reads_the_transcript_on_command_v() {
    let mut state = hotkey::State::new();
    assert_eq!(state.modifiers_changed(FLAG_CONTROL | FLAG_SECONDARY_FN, 5), Change::Pressed);
    assert_eq!(state.modifiers_changed(FLAG_CONTROL | FLAG_SECONDARY_FN, 6), Change::Nothing);
    assert_eq!(state.modifiers_changed(0, 7), Change::Released);
    assert_eq!(state.key_down(ANSI_V, FLAG_COMMAND, 8), KeyOutcome::ReadTranscript);
    assert_eq!(state.key_down(ANSI_V, FLAG_COMMAND, 9), KeyOutcome::Keep);
    state.waiting_since = Some(0);
    assert_eq!(state.key_down(1, 0, PASTE_TIMEOUT_NANOS + 1), KeyOutcome::Cancelled);
    state.combo_down = true;
    assert_eq!(state.key_down(ESCAPE, 0, 0), KeyOutcome::Cancelled);
    assert!(!state.combo_down);
}

#[test]
fn the_worker_awaits_a_transcript_only_after_a_release() {
    let mut worker = Worker::new();
    assert!(!worker.waits_for_transcript());
    let r = worker.on_event(&Event::Pressed);
    assert!(r.capture_context);
    assert_eq!(r.phase, Some(Phase::Listening));
    let r = worker.on_event(&Event::Released);
    assert!(worker.waits_for_transcript());
    assert_eq!(r.phase, Some(Phase::Transcribing));
    worker.on_event(&Event::Ready);
    assert!(worker.waits_for_transcript());
    let r = worker.on_event(&Event::Transcript("open github".into()));
    assert!(r.run_request);
    assert_eq!(r.phase, None);
    assert!(!worker.waits_for_transcript());
    worker.on_event(&Event::Released);
    let r = worker.on_timeout();
    assert!(r.forget_context && r.cancel_capture);
    assert_eq!(r.phase, Some(Phase::Ready));
    assert!(!worker.waits_for_transcript());
    let r = worker.on_event(&Event::Cancelled);
    assert!(r.forget_context && r.cancel_capture && !r.run_request);
    assert_eq!(worker.on_event(&Event::Unavailable).phase, Some(Phase::Off));
    assert_eq!(finished(true), Phase::Done);
    assert_eq!(finished(false), Phase::Error);
}

#[test]
fn phases_round_trip_through_their_numbers() {
    for phase in [
        Phase::Off,
        Phase::Ready,
        Phase::Listening,
        Phase::Transcribing,
        Phase::Working,
        Phase::Done,
        Phase::Error,
    ] {
        assert_eq!(Phase::from_raw(phase.to_raw()), phase);
    }
    assert_eq!(Phase::from_raw(200), Phase::Off);
    assert_eq!(Phase::Working.to_raw(), 4);
    assert_eq!(Phase::default(), Phase::Off);
}

#[test]
fn the_indicator_shares_its_phase_and_capture() {
    let indicator = Indicator::new();
    assert_eq!(indicator.get(), Phase::Off);
    let other = indicator.clone();
    other.set(Phase::Working);
    assert_eq!(indicator.get(), Phase::Working);
    let request = indicator.start_capture();
    assert_eq!(request, 1);
    assert!(!indicator.capture_ready(request));
    indicator.cancel_capture();
    indicator.paste_capture();
    assert!(indicator.capture.0.cancelled.load(std::sync::atomic::Ordering::Acquire));
    assert_eq!(indicator.capture.0.paste.load(std::sync::atomic::Ordering::Acquire), 1);
}

#[test]
fn a_capture_request_is_ready_once_acknowledged() {
    let capture = Capture::new();
    let first = capture.start_request();
    let second = capture.start_request();
    assert_eq!((first, second), (1, 2));
    capture.0.ready.store(1, std::sync::atomic::Ordering::Release);
    assert!(capture.is_ready(first));
    assert!(!capture.is_ready(second));
    capture.cancel();
    capture.start_request();
    assert!(!capture.0.cancelled.load(std::sync::atomic::Ordering::Acquire));
    capture.paste();
    assert_eq!(capture.0.paste.load(std::sync::atomic::Ordering::Acquire), 1);
}

#[test]
fn phases_are_presented_with_text_icon_and_tone() {
    let p = Phase::Listening.presentation();
    assert_eq!((p.text, p.symbol, p.tone, p.dimmed), ("Listening", "waveform", Tone::Red, false));
    let p = Phase::Ready.presentation();
    assert_eq!((p.text, p.symbol, p.tone, p.dimmed), ("Ready", "circle.fill", Tone::Muted, true));
    assert_eq!(Phase::Done.presentation().tone, Tone::Green);
    assert_eq!(Phase::Error.presentation().symbol, "exclamationmark");
}

#[test]
fn the_indicator_is_placed_every_twenty_refreshes() {
    let mut painter = Painter::new();
    let first = painter.refresh(Phase::Ready);
    assert!(first.phase && first.place);
    for _ in 1..POSITION_TICKS {
        let r = painter.refresh(Phase::Ready);
        assert!(!r.phase && !r.place);
    }
    assert!(painter.refresh(Phase::Ready).place);
    let changed = painter.refresh(Phase::Working);
    assert!(changed.phase && changed.place);
    assert!(shown(true, false, false, Phase::Working));
    assert!(!shown(true, false, false, Phase::Ready));
    assert!(shown(true, true, false, Phase::Ready));
    assert!(!shown(false, true, true, Phase::Working));
}

use clipify::capture::{
    begin_capture, capture_step, retry_delay_ms, CaptureAction, CaptureError, CaptureEvent,
    CaptureState, MAX_READ_ATTEMPTS, READ_DELAY_STEP_MS,
};

fn read_failed() -> CaptureEvent {
    CaptureEvent::ClipboardRead(Err("busy".to_string()))
}

#[test]
fn a_capture_begins_with_the_copy() {
    let (state, action) = begin_capture();
    assert!(matches!(state, CaptureState::Copying));
    assert!(matches!(action, CaptureAction::SimulateCopy));
}

#[test]
fn a_failed_copy_ends_the_capture() {
    let (state, action) =
        capture_step(CaptureState::Copying, CaptureEvent::CopySimulated(Err("denied".to_string())));
    assert!(matches!(state, CaptureState::Done));
    match action {
        CaptureAction::Fail(CaptureError::CopySimulationFailed(why)) => assert_eq!(why, "denied"),
        other => panic!("unexpected action {:?}", other),
    }
}

#[test]
fn the_clipboard_is_read_after_a_growing_wait() {
    assert_eq!(MAX_READ_ATTEMPTS, 3);
    assert_eq!(READ_DELAY_STEP_MS, 100);
    assert_eq!(retry_delay_ms(0), 100);
    assert_eq!(retry_delay_ms(1), 200);
    assert_eq!(retry_delay_ms(2), 300);
    let (state, action) = capture_step(CaptureState::Copying, CaptureEvent::CopySimulated(Ok(())));
    assert!(matches!(state, CaptureState::Reading { attempt: 0 }));
    assert!(matches!(action, CaptureAction::ReadAfter { delay_ms: 100 }));
    let (state, action) = capture_step(state, read_failed());
    assert!(matches!(state, CaptureState::Reading { attempt: 1 }));
    assert!(matches!(action, CaptureAction::ReadAfter { delay_ms: 200 }));
    let (state, action) = capture_step(state, read_failed());
    assert!(matches!(state, CaptureState::Reading { attempt: 2 }));
    assert!(matches!(action, CaptureAction::ReadAfter { delay_ms: 300 }));
    let (state, action) = capture_step(state, read_failed());
    assert!(matches!(state, CaptureState::Done));
    match action {
        CaptureAction::Fail(CaptureError::ClipboardReadFailed(why)) => assert_eq!(why, "busy"),
        other => panic!("unexpected action {:?}", other),
    }
}

#[test]
fn a_blank_clipboard_means_nothing_was_selected() {
    for blank in ["", "   ", "\n\t \r\n"] {
        let (state, action) = capture_step(
            CaptureState::Reading { attempt: 0 },
            CaptureEvent::ClipboardRead(Ok(blank.to_string())),
        );
        assert!(matches!(state, CaptureState::Done));
        assert!(matches!(action, CaptureAction::Fail(CaptureError::NoTextSelected)));
    }
}

#[test]
fn a_text_is_cleaned_and_written_back() {
    let (state, action) = capture_step(
        CaptureState::Reading { attempt: 1 },
        CaptureEvent::ClipboardRead(Ok("  Hello,   World!\t\tFoo \r\n".to_string())),
    );
    match &state {
        CaptureState::Writing { raw, cleaned } => {
            assert_eq!(raw, "  Hello,   World!\t\tFoo \r\n");
            assert_eq!(cleaned, "Hello, World! Foo");
        },
        other => panic!("unexpected state {:?}", other),
    }
    match action {
        CaptureAction::WriteBack { text } => assert_eq!(text, "Hello, World! Foo"),
        other => panic!("unexpected action {:?}", other),
    }
    let (state, action) = capture_step(state, CaptureEvent::ClipboardWritten(Ok(())));
    assert!(matches!(state, CaptureState::Done));
    match action {
        CaptureAction::Record { raw, cleaned } => {
            assert_eq!(raw, "  Hello,   World!\t\tFoo \r\n");
            assert_eq!(cleaned, "Hello, World! Foo");
        },
        other => panic!("unexpected action {:?}", other),
    }
}

#[test]
fn a_failed_write_ends_the_capture() {
    let writing = CaptureState::Writing { raw: " a ".to_string(), cleaned: "a".to_string() };
    let (state, action) =
        capture_step(writing, CaptureEvent::ClipboardWritten(Err("locked".to_string())));
    assert!(matches!(state, CaptureState::Done));
    match action {
        CaptureAction::Fail(CaptureError::ClipboardWriteFailed(why)) => assert_eq!(why, "locked"),
        other => panic!("unexpected action {:?}", other),
    }
}

#[test]
fn an_event_out_of_turn_changes_nothing() {
    let (state, action) = capture_step(CaptureState::Copying, read_failed());
    assert!(matches!(state, CaptureState::Copying));
    assert!(matches!(action, CaptureAction::Ignore));
    let (state, action) =
        capture_step(CaptureState::Reading { attempt: 2 }, CaptureEvent::CopySimulated(Ok(())));
    assert!(matches!(state, CaptureState::Reading { attempt: 2 }));
    assert!(matches!(action, CaptureAction::Ignore));
    let (state, action) = capture_step(CaptureState::Done, CaptureEvent::ClipboardWritten(Ok(())));
    assert!(matches!(state, CaptureState::Done));
    assert!(matches!(action, CaptureAction::Ignore));
}

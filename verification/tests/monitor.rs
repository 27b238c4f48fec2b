use clipify::monitor::{
    next_poll_delay_ms, ClipboardMonitor, MonitorAction, ERROR_BACKOFF_MS, POLL_INTERVAL_MS,
};

#[test]
fn a_new_monitor_is_stopped() {
    let mut m = ClipboardMonitor::new();
    assert!(!m.is_running());
    assert_eq!(m.last_content(), "");
    assert!(matches!(m.check_clipboard_change(Some("text".to_string())), MonitorAction::Stop));
    assert_eq!(m.last_content(), "");
}

#[test]
fn starting_twice_begins_one_loop() {
    let mut m = ClipboardMonitor::new();
    assert!(m.start());
    assert!(m.is_running());
    assert!(!m.start());
    assert!(m.is_running());
}

#[test]
fn stop_then_start_resumes_polling() {
    let mut m = ClipboardMonitor::new();
    assert!(m.start());
    assert!(matches!(m.check_clipboard_change(Some("kept".to_string())), MonitorAction::Record(_)));
    m.stop();
    assert!(!m.is_running());
    assert!(matches!(m.check_clipboard_change(Some("other".to_string())), MonitorAction::Stop));
    assert!(m.start());
    assert_eq!(m.last_content(), "kept");
    assert!(matches!(m.check_clipboard_change(Some("kept".to_string())), MonitorAction::Idle));
    match m.check_clipboard_change(Some("other".to_string())) {
        MonitorAction::Record(text) => assert_eq!(text, "other"),
        action => panic!("expected a record, got {:?}", action),
    }
}

#[test]
fn the_same_reading_twice_is_news_once() {
    let mut m = ClipboardMonitor::new();
    m.start();
    match m.check_clipboard_change(Some("fresh".to_string())) {
        MonitorAction::Record(text) => assert_eq!(text, "fresh"),
        action => panic!("expected a record, got {:?}", action),
    }
    assert_eq!(m.last_content(), "fresh");
    assert!(matches!(m.check_clipboard_change(Some("fresh".to_string())), MonitorAction::Idle));
    assert_eq!(m.last_content(), "fresh");
}

#[test]
fn failed_and_blank_readings_are_no_news() {
    let mut m = ClipboardMonitor::new();
    m.start();
    assert!(matches!(m.check_clipboard_change(None), MonitorAction::Idle));
    assert!(matches!(m.check_clipboard_change(Some(String::new())), MonitorAction::Idle));
    assert!(matches!(m.check_clipboard_change(Some(" \t\n".to_string())), MonitorAction::Idle));
    assert_eq!(m.last_content(), "");
    assert!(m.is_running());
    assert!(matches!(m.check_clipboard_change(Some(" a ".to_string())), MonitorAction::Record(_)));
    assert_eq!(m.last_content(), " a ");
    assert!(matches!(m.check_clipboard_change(Some("a".to_string())), MonitorAction::Record(_)));
}

#[test]
fn an_error_delays_the_next_poll() {
    assert_eq!(POLL_INTERVAL_MS, 500);
    assert_eq!(ERROR_BACKOFF_MS, 2000);
    assert_eq!(next_poll_delay_ms(false), 500);
    assert_eq!(next_poll_delay_ms(true), 2500);
}

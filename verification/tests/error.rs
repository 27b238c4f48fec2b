use clipify::capture::CaptureError;
use clipify::commands::HistoryError;
use clipify::error::ErrorKind;

#[test]
fn every_failure_has_its_kind() {
    assert_eq!(
        CaptureError::CopySimulationFailed("x".to_string()).kind(),
        ErrorKind::CopySimulationFailed
    );
    assert_eq!(
        CaptureError::ClipboardReadFailed("x".to_string()).kind(),
        ErrorKind::ClipboardReadFailed
    );
    assert_eq!(
        CaptureError::ClipboardWriteFailed("x".to_string()).kind(),
        ErrorKind::ClipboardWriteFailed
    );
    assert_eq!(CaptureError::NoTextSelected.kind(), ErrorKind::NoTextSelected);
    assert_eq!(HistoryError::EntryNotFound.kind(), ErrorKind::EntryNotFound);
}

#[test]
fn only_a_failure_to_store_is_not_fatal() {
    assert!(!ErrorKind::PersistenceFailed.is_fatal());
    for kind in [
        ErrorKind::CopySimulationFailed,
        ErrorKind::ClipboardReadFailed,
        ErrorKind::ClipboardWriteFailed,
        ErrorKind::NoTextSelected,
        ErrorKind::EntryNotFound,
    ] {
        assert!(kind.is_fatal());
    }
}

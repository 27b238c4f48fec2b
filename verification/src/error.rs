//! The kinds of failure that the application tells apart.

use crate::capture::{CaptureError, CaptureErrorView};
use crate::commands::HistoryError;
use vstd::prelude::*;

verus! {

/// The kind of a failure. Each kind stands for one situation, so that whoever
/// shows a failure to the user can choose the words by the kind alone.
#[derive(Clone, Copy, Debug, PartialEq, Eq, Structural)]
pub enum ErrorKind {
    /// The copy keystroke could not be simulated.
    CopySimulationFailed,
    /// The clipboard could not be read.
    ClipboardReadFailed,
    /// The clipboard could not be written.
    ClipboardWriteFailed,
    /// The clipboard was read, but held no text worth the name.
    NoTextSelected,
    /// The history could not be stored. The history in memory stays the one
    /// that counts: this failure is reported, and nothing comes to an end.
    PersistenceFailed,
    /// The history holds no entry with the identifier that was asked for.
    EntryNotFound,
}

/// The kind of a failed capture.
pub open spec fn kind_of_capture_error(error: CaptureErrorView) -> ErrorKind {
    match error {
        CaptureErrorView::CopySimulationFailed(_) => ErrorKind::CopySimulationFailed,
        CaptureErrorView::ClipboardReadFailed(_) => ErrorKind::ClipboardReadFailed,
        CaptureErrorView::ClipboardWriteFailed(_) => ErrorKind::ClipboardWriteFailed,
        CaptureErrorView::NoTextSelected => ErrorKind::NoTextSelected,
    }
}

/// Whether a failure of this kind ends what was being done; a failure to store
/// the history does not.
pub open spec fn ends_the_operation(kind: ErrorKind) -> bool {
    kind != ErrorKind::PersistenceFailed
}

impl CaptureError {
    /// The kind of the failure.
    pub fn kind(&self) -> (kind: ErrorKind)
        ensures
            kind == kind_of_capture_error(self@),
    {
        match self {
            CaptureError::CopySimulationFailed(_) => ErrorKind::CopySimulationFailed,
            CaptureError::ClipboardReadFailed(_) => ErrorKind::ClipboardReadFailed,
            CaptureError::ClipboardWriteFailed(_) => ErrorKind::ClipboardWriteFailed,
            CaptureError::NoTextSelected => ErrorKind::NoTextSelected,
        }
    }
}

impl HistoryError {
    /// The kind of the failure.
    pub fn kind(&self) -> (kind: ErrorKind)
        ensures
            kind == ErrorKind::EntryNotFound,
    {
        ErrorKind::EntryNotFound
    }
}

impl ErrorKind {
    /// Whether a failure of this kind ends what was being done.
    pub fn is_fatal(&self) -> (fatal: bool)
        ensures
            fatal == ends_the_operation(*self),
    {
        match self {
            ErrorKind::PersistenceFailed => false,
            _ => true,
        }
    }
}

/// Failed captures of different variants are of different kinds.
pub proof fn lemma_kinds_tell_failures_apart(a: CaptureErrorView, b: CaptureErrorView)
    ensures
        kind_of_capture_error(a) == kind_of_capture_error(b) <==> ((a is CopySimulationFailed
            && b is CopySimulationFailed) || (a is ClipboardReadFailed && b is ClipboardReadFailed)
            || (a is ClipboardWriteFailed && b is ClipboardWriteFailed) || (a is NoTextSelected
            && b is NoTextSelected)),
{
}

} // verus!

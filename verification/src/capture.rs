//! The capture workflow: copy the selected text, read it from the clipboard,
//! clean it, write it back and record it.
//!
//! The workflow talks to the keyboard and the clipboard, which this library does
//! not. It is therefore a state machine: the caller performs the action that a
//! step asks for and reports the outcome as the next event.

use crate::normal_form::lemma_normalized_empty_iff_blank;
use crate::normalize::{cleanup_text, normalized};
use crate::text::{chars_are_blank, is_blank, to_chars};
use vstd::prelude::*;

verus! {

/// Why a capture came to nothing.
#[derive(Debug)]
pub enum CaptureError {
    /// The copy keystroke could not be simulated.
    CopySimulationFailed(String),
    /// The clipboard could not be read, not even at the last attempt.
    ClipboardReadFailed(String),
    /// The cleaned text could not be written to the clipboard.
    ClipboardWriteFailed(String),
    /// The clipboard was read, but held no text worth the name.
    NoTextSelected,
}

/// Where a capture stands.
#[derive(Debug)]
pub enum CaptureState {
    /// The copy keystroke is being simulated.
    Copying,
    /// The clipboard is being read; `attempt` reads have failed so far.
    Reading { attempt: u32 },
    /// The cleaned text is being written to the clipboard.
    Writing { raw: String, cleaned: String },
    /// The capture is over.
    Done,
}

/// What happened to the action that the last step asked for. A failure carries
/// the words of whoever failed.
#[derive(Debug)]
pub enum CaptureEvent {
    CopySimulated(Result<(), String>),
    ClipboardRead(Result<String, String>),
    ClipboardWritten(Result<(), String>),
}

/// What the caller is to do next.
#[derive(Debug)]
pub enum CaptureAction {
    /// Simulate the copy keystroke.
    SimulateCopy,
    /// Wait for `delay_ms` milliseconds, then read the clipboard.
    ReadAfter { delay_ms: u64 },
    /// Write the text to the clipboard.
    WriteBack { text: String },
    /// The clipboard holds the cleaned text: record the capture in the history,
    /// announce the cleaned text and hand it to whoever asked.
    Record { raw: String, cleaned: String },
    /// Nothing was left of the text: announce the empty text and hand it to
    /// whoever asked.
    AnnounceEmpty,
    /// Give up with this error.
    Fail(CaptureError),
    /// The event does not belong to the state: do nothing.
    Ignore,
}

/// The value of a [`CaptureError`].
pub enum CaptureErrorView {
    CopySimulationFailed(Seq<char>),
    ClipboardReadFailed(Seq<char>),
    ClipboardWriteFailed(Seq<char>),
    NoTextSelected,
}

/// The value of a [`CaptureState`].
pub enum CaptureStateView {
    Copying,
    Reading { attempt: nat },
    Writing { raw: Seq<char>, cleaned: Seq<char> },
    Done,
}

/// The value of a [`CaptureEvent`]: for the copy and the write the words of the
/// failure, if it was one; for the read the text or the words of the failure.
pub enum CaptureEventView {
    CopySimulated(Option<Seq<char>>),
    ClipboardRead(Result<Seq<char>, Seq<char>>),
    ClipboardWritten(Option<Seq<char>>),
}

/// The value of a [`CaptureAction`].
pub enum CaptureActionView {
    SimulateCopy,
    ReadAfter { delay_ms: nat },
    WriteBack { text: Seq<char> },
    Record { raw: Seq<char>, cleaned: Seq<char> },
    AnnounceEmpty,
    Fail(CaptureErrorView),
    Ignore,
}

impl View for CaptureError {
    type V = CaptureErrorView;

    open spec fn view(&self) -> CaptureErrorView {
        match self {
            CaptureError::CopySimulationFailed(e) => CaptureErrorView::CopySimulationFailed(e@),
            CaptureError::ClipboardReadFailed(e) => CaptureErrorView::ClipboardReadFailed(e@),
            CaptureError::ClipboardWriteFailed(e) => CaptureErrorView::ClipboardWriteFailed(e@),
            CaptureError::NoTextSelected => CaptureErrorView::NoTextSelected,
        }
    }
}

impl View for CaptureState {
    type V = CaptureStateView;

    open spec fn view(&self) -> CaptureStateView {
        match self {
            CaptureState::Copying => CaptureStateView::Copying,
            CaptureState::Reading { attempt } => CaptureStateView::Reading {
                attempt: *attempt as nat,
            },
            CaptureState::Writing { raw, cleaned } => CaptureStateView::Writing {
                raw: raw@,
                cleaned: cleaned@,
            },
            CaptureState::Done => CaptureStateView::Done,
        }
    }
}

impl View for CaptureEvent {
    type V = CaptureEventView;

    open spec fn view(&self) -> CaptureEventView {
        match self {
            CaptureEvent::CopySimulated(Ok(_)) => CaptureEventView::CopySimulated(None),
            CaptureEvent::CopySimulated(Err(e)) => CaptureEventView::CopySimulated(Some(e@)),
            CaptureEvent::ClipboardRead(Ok(text)) => CaptureEventView::ClipboardRead(Ok(text@)),
            CaptureEvent::ClipboardRead(Err(e)) => CaptureEventView::ClipboardRead(Err(e@)),
            CaptureEvent::ClipboardWritten(Ok(_)) => CaptureEventView::ClipboardWritten(None),
            CaptureEvent::ClipboardWritten(Err(e)) => CaptureEventView::ClipboardWritten(
                Some(e@),
            ),
        }
    }
}

impl View for CaptureAction {
    type V = CaptureActionView;

    open spec fn view(&self) -> CaptureActionView {
        match self {
            CaptureAction::SimulateCopy => CaptureActionView::SimulateCopy,
            CaptureAction::ReadAfter { delay_ms } => CaptureActionView::ReadAfter {
                delay_ms: *delay_ms as nat,
            },
            CaptureAction::WriteBack { text } => CaptureActionView::WriteBack { text: text@ },
            CaptureAction::Record { raw, cleaned } => CaptureActionView::Record {
                raw: raw@,
                cleaned: cleaned@,
            },
            CaptureAction::AnnounceEmpty => CaptureActionView::AnnounceEmpty,
            CaptureAction::Fail(e) => CaptureActionView::Fail(e@),
            CaptureAction::Ignore => CaptureActionView::Ignore,
        }
    }
}

/// The number of times the clipboard is read before a capture gives up.
pub const MAX_READ_ATTEMPTS: u32 = 3;

/// The wait before the first read, in milliseconds; each further read waits as
/// much longer again.
pub const READ_DELAY_STEP_MS: u64 = 100;

/// The wait before the read that follows `failed` failed reads: it grows by the
/// same step with every read.
pub open spec fn read_delay_ms(failed: nat) -> nat {
    READ_DELAY_STEP_MS as nat * (failed + 1)
}

/// What a capture does with a text that was read from the clipboard.
pub open spec fn after_read(raw: Seq<char>) -> (CaptureStateView, CaptureActionView) {
    if is_blank(raw) {
        (CaptureStateView::Done, CaptureActionView::Fail(CaptureErrorView::NoTextSelected))
    } else if normalized(raw).len() == 0 {
        (CaptureStateView::Done, CaptureActionView::AnnounceEmpty)
    } else {
        (
            CaptureStateView::Writing { raw, cleaned: normalized(raw) },
            CaptureActionView::WriteBack { text: normalized(raw) },
        )
    }
}

/// The step of a capture: the state that follows `state` on `event`, and what
/// the caller is to do.
///
/// A failed copy ends the capture. A failed read is tried again after a longer
/// wait, until the last attempt has failed too. A text that was read ends the
/// capture where it is blank; else it is cleaned and written back. Once it is
/// written, the capture is recorded. An event that does not answer what the
/// state is waiting for changes nothing.
pub open spec fn capture_transition(state: CaptureStateView, event: CaptureEventView) -> (
    CaptureStateView,
    CaptureActionView,
) {
    match (state, event) {
        (CaptureStateView::Copying, CaptureEventView::CopySimulated(None)) => (
            CaptureStateView::Reading { attempt: 0 },
            CaptureActionView::ReadAfter { delay_ms: read_delay_ms(0) },
        ),
        (CaptureStateView::Copying, CaptureEventView::CopySimulated(Some(e))) => (
            CaptureStateView::Done,
            CaptureActionView::Fail(CaptureErrorView::CopySimulationFailed(e)),
        ),
        (CaptureStateView::Reading { attempt }, CaptureEventView::ClipboardRead(Err(e))) => {
            if attempt + 1 < MAX_READ_ATTEMPTS {
                (
                    CaptureStateView::Reading { attempt: attempt + 1 },
                    CaptureActionView::ReadAfter { delay_ms: read_delay_ms(attempt + 1) },
                )
            } else {
                (
                    CaptureStateView::Done,
                    CaptureActionView::Fail(CaptureErrorView::ClipboardReadFailed(e)),
                )
            }
        },
        (CaptureStateView::Reading { attempt }, CaptureEventView::ClipboardRead(Ok(raw))) => {
            after_read(raw)
        },
        (CaptureStateView::Writing { raw, cleaned }, CaptureEventView::ClipboardWritten(None)) => (
            CaptureStateView::Done,
            CaptureActionView::Record { raw, cleaned },
        ),
        (
            CaptureStateView::Writing { raw, cleaned },
            CaptureEventView::ClipboardWritten(Some(e)),
        ) => (
            CaptureStateView::Done,
            CaptureActionView::Fail(CaptureErrorView::ClipboardWriteFailed(e)),
        ),
        _ => (state, CaptureActionView::Ignore),
    }
}

/// Begins a capture: the copy keystroke is to be simulated.
pub fn begin_capture() -> (r: (CaptureState, CaptureAction))
    ensures
        r.0@ == CaptureStateView::Copying,
        r.1@ == CaptureActionView::SimulateCopy,
{
    (CaptureState::Copying, CaptureAction::SimulateCopy)
}

/// The wait before the read that follows `failed` failed reads, in milliseconds.
pub fn retry_delay_ms(failed: u32) -> (delay: u64)
    ensures
        delay == read_delay_ms(failed as nat),
{
    READ_DELAY_STEP_MS * (failed as u64 + 1)
}

/// Takes a capture one step further: gives the state that follows `state` on
/// `event`, and what the caller is to do next.
pub fn capture_step(state: CaptureState, event: CaptureEvent) -> (r: (CaptureState, CaptureAction))
    ensures
        (r.0@, r.1@) == capture_transition(state@, event@),
{
    match (state, event) {
        (CaptureState::Copying, CaptureEvent::CopySimulated(Ok(_))) => (
            CaptureState::Reading { attempt: 0 },
            CaptureAction::ReadAfter { delay_ms: retry_delay_ms(0) },
        ),
        (CaptureState::Copying, CaptureEvent::CopySimulated(Err(e))) => (
            CaptureState::Done,
            CaptureAction::Fail(CaptureError::CopySimulationFailed(e)),
        ),
        (CaptureState::Reading { attempt }, CaptureEvent::ClipboardRead(Err(e))) => {
            if attempt < MAX_READ_ATTEMPTS - 1 {
                (
                    CaptureState::Reading { attempt: attempt + 1 },
                    CaptureAction::ReadAfter { delay_ms: retry_delay_ms(attempt + 1) },
                )
            } else {
                (CaptureState::Done, CaptureAction::Fail(CaptureError::ClipboardReadFailed(e)))
            }
        },
        (CaptureState::Reading { attempt }, CaptureEvent::ClipboardRead(Ok(raw))) => {
            let chars = to_chars(raw.as_str());
            if chars_are_blank(&chars) {
                (CaptureState::Done, CaptureAction::Fail(CaptureError::NoTextSelected))
            } else {
                let cleaned = cleanup_text(raw.as_str());
                if cleaned.as_str().unicode_len() == 0 {
                    (CaptureState::Done, CaptureAction::AnnounceEmpty)
                } else {
                    let text = cleaned.clone();
                    (CaptureState::Writing { raw, cleaned }, CaptureAction::WriteBack { text })
                }
            }
        },
        (CaptureState::Writing { raw, cleaned }, CaptureEvent::ClipboardWritten(Ok(_))) => (
            CaptureState::Done,
            CaptureAction::Record { raw, cleaned },
        ),
        (CaptureState::Writing { raw, cleaned }, CaptureEvent::ClipboardWritten(Err(e))) => (
            CaptureState::Done,
            CaptureAction::Fail(CaptureError::ClipboardWriteFailed(e)),
        ),
        (state, _) => (state, CaptureAction::Ignore),
    }
}

/// No step of a capture asks to announce the empty text: a text that is not
/// blank is never cleaned away, so the check for it is a precaution only.
pub proof fn lemma_capture_never_announces_empty(state: CaptureStateView, event: CaptureEventView)
    ensures
        !(capture_transition(state, event).1 is AnnounceEmpty),
{
    match (state, event) {
        (CaptureStateView::Reading { attempt }, CaptureEventView::ClipboardRead(Ok(raw))) => {
            lemma_normalized_empty_iff_blank(raw);
        },
        _ => {},
    }
}

/// A capture that has come to its end stays there: whatever is reported to it,
/// nothing is asked for any more.
pub proof fn lemma_capture_done_is_final(event: CaptureEventView)
    ensures
        capture_transition(CaptureStateView::Done, event) == (
            CaptureStateView::Done,
            CaptureActionView::Ignore,
        ),
{
}

/// How far a capture is from its end at most, counted in steps.
pub open spec fn steps_left(state: CaptureStateView) -> nat {
    match state {
        CaptureStateView::Copying => MAX_READ_ATTEMPTS as nat + 2,
        CaptureStateView::Reading { attempt } => if attempt < MAX_READ_ATTEMPTS {
            (MAX_READ_ATTEMPTS - attempt + 1) as nat
        } else {
            2
        },
        CaptureStateView::Writing { raw, cleaned } => 1,
        CaptureStateView::Done => 0,
    }
}

/// Every step that asks for something brings a capture nearer to its end, so a
/// capture ends after five steps at most, of which three at most are reads.
pub proof fn lemma_capture_comes_to_an_end(state: CaptureStateView, event: CaptureEventView)
    ensures
        !(capture_transition(state, event).1 is Ignore) ==> steps_left(
            capture_transition(state, event).0,
        ) < steps_left(state),
        capture_transition(state, event).1 is Ignore ==> capture_transition(state, event).0
            == state,
        steps_left(state) <= MAX_READ_ATTEMPTS + 2,
{
}

/// A step ends a capture just where it asks to record it, to announce the empty
/// text or to give up.
pub proof fn lemma_capture_ends_with_an_outcome(state: CaptureStateView, event: CaptureEventView)
    ensures
        ({
            let (next, action) = capture_transition(state, event);
            (action is Record || action is AnnounceEmpty || action is Fail) ==> next is Done
        }),
        ({
            let (next, action) = capture_transition(state, event);
            (action is ReadAfter ==> next is Reading) && (action is WriteBack ==> next is Writing)
        }),
{
}

} // verus!

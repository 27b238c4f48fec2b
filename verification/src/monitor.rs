//! The clipboard monitor: it is polled at a fixed interval with what the
//! clipboard holds, and tells which readings are news.
//!
//! Reading the clipboard, waiting and announcing are the caller's part. The
//! monitor keeps what it saw last and whether it is running, and decides.

use crate::text::{chars_are_blank, is_blank, to_chars};
use vstd::prelude::*;

verus! {

/// The time between two polls of the clipboard, in milliseconds.
pub const POLL_INTERVAL_MS: u64 = 500;

/// The additional wait after a poll that ended in an error, in milliseconds.
pub const ERROR_BACKOFF_MS: u64 = 2000;

/// The state of the monitor: the clipboard text it saw last, and whether it is
/// running.
#[derive(Debug)]
pub struct ClipboardMonitor {
    last_content: String,
    is_running: bool,
}

/// The value of a monitor.
pub struct MonitorView {
    pub last_content: Seq<char>,
    pub is_running: bool,
}

/// What the caller is to do after a poll.
#[derive(Debug)]
pub enum MonitorAction {
    /// The monitor was stopped: leave the polling loop.
    Stop,
    /// Nothing new: wait for the next poll.
    Idle,
    /// The clipboard holds a new text: record it in the history and announce it.
    Record(String),
}

/// The value of a [`MonitorAction`].
pub enum MonitorActionView {
    Stop,
    Idle,
    Record(Seq<char>),
}

impl View for MonitorAction {
    type V = MonitorActionView;

    open spec fn view(&self) -> MonitorActionView {
        match self {
            MonitorAction::Stop => MonitorActionView::Stop,
            MonitorAction::Idle => MonitorActionView::Idle,
            MonitorAction::Record(text) => MonitorActionView::Record(text@),
        }
    }
}

impl View for ClipboardMonitor {
    type V = MonitorView;

    closed spec fn view(&self) -> MonitorView {
        MonitorView { last_content: self.last_content@, is_running: self.is_running }
    }
}

/// The view of an optional reading.
pub open spec fn reading_view(reading: Option<String>) -> Option<Seq<char>> {
    match reading {
        Some(text) => Some(text@),
        None => None,
    }
}

/// The monitor after a request to start, and whether a polling loop has to be
/// begun: it has where the monitor was not running.
pub open spec fn started(m: MonitorView) -> (MonitorView, bool) {
    (MonitorView { last_content: m.last_content, is_running: true }, !m.is_running)
}

/// The monitor after a request to stop.
pub open spec fn stopped(m: MonitorView) -> MonitorView {
    MonitorView { last_content: m.last_content, is_running: false }
}

/// The poll of a monitor with a reading of the clipboard (`None` where it could
/// not be read): the monitor afterwards, and what the caller is to do.
///
/// A stopped monitor ends the loop. A reading that failed, is blank, or equals
/// the text seen last is no news. Any other text is remembered and recorded.
pub open spec fn polled(m: MonitorView, reading: Option<Seq<char>>) -> (
    MonitorView,
    MonitorActionView,
) {
    if !m.is_running {
        (m, MonitorActionView::Stop)
    } else {
        match reading {
            None => (m, MonitorActionView::Idle),
            Some(text) => if is_blank(text) || text == m.last_content {
                (m, MonitorActionView::Idle)
            } else {
                (
                    MonitorView { last_content: text, is_running: true },
                    MonitorActionView::Record(text),
                )
            },
        }
    }
}

/// The wait before the next poll, given whether the last one ended in an error.
pub open spec fn wait_before_next_poll(failed: bool) -> nat {
    if failed {
        (POLL_INTERVAL_MS + ERROR_BACKOFF_MS) as nat
    } else {
        POLL_INTERVAL_MS as nat
    }
}

impl ClipboardMonitor {
    /// A monitor that is not running and has seen nothing yet.
    pub fn new() -> (m: Self)
        ensures
            m@ == (MonitorView { last_content: Seq::<char>::empty(), is_running: false }),
    {
        ClipboardMonitor { last_content: String::new(), is_running: false }
    }

    /// Whether the monitor is running.
    pub fn is_running(&self) -> (r: bool)
        ensures
            r == self@.is_running,
    {
        self.is_running
    }

    /// The clipboard text that the monitor saw last.
    pub fn last_content(&self) -> (text: &String)
        ensures
            text@ == self@.last_content,
    {
        &self.last_content
    }

    /// Starts the monitor. Tells whether the caller has to begin a polling loop:
    /// it has not where the monitor was running already.
    pub fn start(&mut self) -> (begin_polling: bool)
        ensures
            (final(self)@, begin_polling) == started(old(self)@),
    {
        let begin_polling = !self.is_running;
        self.is_running = true;
        begin_polling
    }

    /// Stops the monitor: the next poll ends the polling loop.
    pub fn stop(&mut self)
        ensures
            final(self)@ == stopped(old(self)@),
    {
        self.is_running = false;
    }

    /// Polls the monitor with what was read from the clipboard, `None` where the
    /// read failed, and tells what is to be done.
    pub fn check_clipboard_change(&mut self, reading: Option<String>) -> (action: MonitorAction)
        ensures
            (final(self)@, action@) == polled(old(self)@, reading_view(reading)),
    {
        if !self.is_running {
            return MonitorAction::Stop;
        }
        match reading {
            None => MonitorAction::Idle,
            Some(text) => {
                let chars = to_chars(text.as_str());
                if chars_are_blank(&chars) || text == self.last_content {
                    MonitorAction::Idle
                } else {
                    self.last_content = text.clone();
                    MonitorAction::Record(text)
                }
            },
        }
    }
}

/// The wait before the next poll, in milliseconds: the polling interval, and the
/// backoff on top of it after a poll that ended in an error.
pub fn next_poll_delay_ms(failed: bool) -> (delay: u64)
    ensures
        delay == wait_before_next_poll(failed),
{
    if failed {
        POLL_INTERVAL_MS + ERROR_BACKOFF_MS
    } else {
        POLL_INTERVAL_MS
    }
}

/// Starting a running monitor changes nothing and asks for no second polling
/// loop: of two starts in a row, the second is without effect.
pub proof fn lemma_second_start_is_noop(m: MonitorView)
    ensures
        started(started(m).0) == (started(m).0, false),
{
}

/// A monitor that was stopped and is started again asks for a polling loop.
pub proof fn lemma_start_after_stop_resumes(m: MonitorView)
    ensures
        started(stopped(m)).0.is_running,
        started(stopped(m)).1,
        started(stopped(m)).0.last_content == m.last_content,
{
}

/// A poll that reads the same text as the poll before it is no news: it leaves
/// the monitor as it is and asks for nothing to be recorded.
pub proof fn lemma_same_reading_is_no_news(m: MonitorView, text: Seq<char>)
    ensures
        ({
            let after = polled(m, Some(text)).0;
            polled(after, Some(text)).0 == after && !(polled(after, Some(text)).1
                is Record)
        }),
{
}

} // verus!

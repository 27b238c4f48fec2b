//! Clipboard history for a desktop text-cleanup utility.
//!
//! The library cleans captured text ([`normalize`]), describes a text
//! ([`classify`]) as a clipboard entry ([`entry`]), and keeps a bounded history of entries in which
//! no text is recorded twice ([`history`], [`commands`]). It decides what the
//! clipboard monitor ([`monitor`]) and the capture workflow ([`capture`]) do
//! next; reading and writing the clipboard, waiting and storing are left to the
//! caller. Around that stand the tray menu ([`tray`]), deep links
//! ([`deep_link`], [`link`]), the configuration ([`config`]) and the reading of
//! what the operating system answers ([`platform`]).
//!
//! The laws that cleaning and the history obey are proved in [`normal_form`],
//! [`newline_runs`] and [`history_laws`].

pub mod capture;
pub mod classify;
pub mod commands;
pub mod config;
pub mod deep_link;
pub mod entry;
pub mod error;
pub mod history;
pub mod history_laws;
pub mod link;
pub mod monitor;
pub mod newline_runs;
pub mod normal_form;
pub mod normalize;
pub mod platform;
pub mod text;
pub mod tray;

pub use capture::{CaptureAction, CaptureError, CaptureEvent, CaptureState};
pub use config::{EnvironmentConfig, RephraseRequest, RephraseResponse};
pub use deep_link::{
    DeepLinkDiagnostics, DeepLinkEvent, DeepLinkEventStore, ProtocolRegistrationStatus,
};
pub use classify::ContentType;
pub use entry::{ClipboardEntry, Timestamp};
pub use error::ErrorKind;
pub use history::ClipboardHistory;
pub use monitor::{ClipboardMonitor, MonitorAction};
pub use normalize::cleanup_text;

//! The tray menu: the labels and identifiers of the items that stand for recent
//! clipboard entries, and the command that an item of the menu stands for.

use crate::classify::{shorten, shortened};
use crate::entry::ClipboardEntry;
use crate::history::{borrowed_views, ClipboardHistory};
use crate::text::{from_chars, starts_with, str_eq, to_chars};
use vstd::prelude::*;

verus! {

/// The number of recent entries that the tray menu shows.
pub const RECENT_ITEMS: usize = 10;

/// The number of bytes to which the label of an entry is shortened.
pub const LABEL_BYTES: usize = 50;

/// What begins the identifier of a menu item that stands for an entry.
pub open spec fn item_prefix() -> Seq<char> {
    "clipboard_item_"@
}

/// What begins the label of a menu item that stands for an entry: a clipboard
/// sign and a space.
pub open spec fn label_prefix() -> Seq<char> {
    seq!['\u{1F4CB}', ' ']
}

/// A character as a label shows it: a space for a line feed or a tab.
pub open spec fn label_char(c: char) -> char {
    if c == '\n' || c == '\t' {
        ' '
    } else {
        c
    }
}

/// The label of the menu item for an entry with the given preview: the preview
/// shortened to fifty bytes, on one line, behind the clipboard sign.
pub open spec fn label_of(preview: Seq<char>) -> Seq<char> {
    label_prefix() + shortened(preview, LABEL_BYTES as nat).map_values(|c: char| label_char(c))
}

/// The identifier of the menu item for the entry with the given identifier.
pub open spec fn item_id_of(entry_id: Seq<char>) -> Seq<char> {
    item_prefix() + entry_id
}

/// What an item of the tray menu asks for.
#[derive(Debug)]
pub enum MenuCommand {
    ShowHide,
    CleanupClipboard,
    TriggerShortcut,
    ClearHistory,
    Settings,
    About,
    Quit,
    /// Paste the entry with this identifier.
    PasteEntry(String),
    /// The item is not one of the menu.
    Unknown,
}

/// The value of a [`MenuCommand`].
pub enum MenuCommandView {
    ShowHide,
    CleanupClipboard,
    TriggerShortcut,
    ClearHistory,
    Settings,
    About,
    Quit,
    PasteEntry(Seq<char>),
    Unknown,
}

impl View for MenuCommand {
    type V = MenuCommandView;

    open spec fn view(&self) -> MenuCommandView {
        match self {
            MenuCommand::ShowHide => MenuCommandView::ShowHide,
            MenuCommand::CleanupClipboard => MenuCommandView::CleanupClipboard,
            MenuCommand::TriggerShortcut => MenuCommandView::TriggerShortcut,
            MenuCommand::ClearHistory => MenuCommandView::ClearHistory,
            MenuCommand::Settings => MenuCommandView::Settings,
            MenuCommand::About => MenuCommandView::About,
            MenuCommand::Quit => MenuCommandView::Quit,
            MenuCommand::PasteEntry(id) => MenuCommandView::PasteEntry(id@),
            MenuCommand::Unknown => MenuCommandView::Unknown,
        }
    }
}

/// The command that the menu item with the given identifier asks for. The
/// fixed items go by their names; an identifier that begins with the prefix of
/// entry items asks for the entry named behind the prefix.
pub open spec fn command_of(item: Seq<char>) -> MenuCommandView {
    if item == "show_hide"@ {
        MenuCommandView::ShowHide
    } else if item == "cleanup_clipboard"@ {
        MenuCommandView::CleanupClipboard
    } else if item == "trigger_shortcut"@ {
        MenuCommandView::TriggerShortcut
    } else if item == "clear_history"@ {
        MenuCommandView::ClearHistory
    } else if item == "settings"@ {
        MenuCommandView::Settings
    } else if item == "about"@ {
        MenuCommandView::About
    } else if item == "quit"@ {
        MenuCommandView::Quit
    } else if item_prefix().is_prefix_of(item) {
        MenuCommandView::PasteEntry(item.skip(item_prefix().len() as int))
    } else {
        MenuCommandView::Unknown
    }
}

/// The entries that the tray menu shows: the ten most recent.
pub fn recent_entries(history: &ClipboardHistory) -> (recent: Vec<&ClipboardEntry>)
    ensures
        borrowed_views(recent@) == if history@.entries.len() > RECENT_ITEMS {
            history@.entries.take(RECENT_ITEMS as int)
        } else {
            history@.entries
        },
{
    let entries = history.get_entries();
    let n = if entries.len() > RECENT_ITEMS {
        RECENT_ITEMS
    } else {
        entries.len()
    };
    let mut recent: Vec<&ClipboardEntry> = Vec::new();
    let mut i: usize = 0;
    while i < n
        invariant
            i <= n <= entries.len(),
            entries == history.entries,
            borrowed_views(recent@) == history@.entries.take(i as int),
        decreases n - i,
    {
        let ghost before = recent@;
        recent.push(&entries[i]);
        proof {
            assert(borrowed_views(recent@) =~= borrowed_views(before).push(entries@[i as int]@));
            assert(history@.entries.take(i + 1) =~= history@.entries.take(i as int).push(
                entries@[i as int]@,
            ));
        }
        i += 1;
    }
    proof {
        assert(history@.entries.take(history@.entries.len() as int) == history@.entries);
    }
    recent
}

/// The label of the menu item for an entry with the given preview.
pub fn tray_item_label(preview: &str) -> (label: String)
    ensures
        label@ == label_of(preview@),
{
    let short = shorten(&to_chars(preview), LABEL_BYTES);
    let mut out: Vec<char> = Vec::new();
    out.push('\u{1F4CB}');
    out.push(' ');
    let mut i: usize = 0;
    while i < short.len()
        invariant
            i <= short.len(),
            out@ == label_prefix() + short@.take(i as int).map_values(|c: char| label_char(c)),
        decreases short.len() - i,
    {
        let c = short[i];
        let d = if c == '\n' || c == '\t' {
            ' '
        } else {
            c
        };
        out.push(d);
        proof {
            assert(short@.take(i + 1).map_values(|c: char| label_char(c)) =~= short@.take(
                i as int,
            ).map_values(|c: char| label_char(c)).push(d));
        }
        i += 1;
    }
    proof {
        assert(short@.take(short@.len() as int) == short@);
    }
    from_chars(&out)
}

/// The identifier of the menu item for the entry with the given identifier.
pub fn tray_item_id(entry_id: &str) -> (item: String)
    ensures
        item@ == item_id_of(entry_id@),
{
    let mut out = to_chars("clipboard_item_");
    let id = to_chars(entry_id);
    let mut i: usize = 0;
    while i < id.len()
        invariant
            i <= id.len(),
            out@ == item_prefix() + id@.take(i as int),
        decreases id.len() - i,
    {
        out.push(id[i]);
        i += 1;
    }
    proof {
        assert(id@.take(id@.len() as int) == id@);
    }
    from_chars(&out)
}

/// The command that the menu item with the given identifier asks for.
pub fn parse_menu_event(item: &str) -> (command: MenuCommand)
    ensures
        command@ == command_of(item@),
{
    if str_eq(item, "show_hide") {
        MenuCommand::ShowHide
    } else if str_eq(item, "cleanup_clipboard") {
        MenuCommand::CleanupClipboard
    } else if str_eq(item, "trigger_shortcut") {
        MenuCommand::TriggerShortcut
    } else if str_eq(item, "clear_history") {
        MenuCommand::ClearHistory
    } else if str_eq(item, "settings") {
        MenuCommand::Settings
    } else if str_eq(item, "about") {
        MenuCommand::About
    } else if str_eq(item, "quit") {
        MenuCommand::Quit
    } else {
        let chars = to_chars(item);
        let prefix = to_chars("clipboard_item_");
        if starts_with(&chars, &prefix) {
            let mut id: Vec<char> = Vec::new();
            let mut i: usize = prefix.len();
            while i < chars.len()
                invariant
                    prefix.len() <= i <= chars.len(),
                    id@ == chars@.subrange(prefix@.len() as int, i as int),
                decreases chars.len() - i,
            {
                id.push(chars[i]);
                i += 1;
            }
            MenuCommand::PasteEntry(from_chars(&id))
        } else {
            MenuCommand::Unknown
        }
    }
}

/// The identifier that is made for the menu item of an entry asks for just that
/// entry to be pasted.
pub proof fn lemma_item_id_round_trip(entry_id: Seq<char>)
    ensures
        command_of(item_id_of(entry_id)) == MenuCommandView::PasteEntry(entry_id),
{
    let item = item_id_of(entry_id);
    reveal_strlit("clipboard_item_");
    reveal_strlit("show_hide");
    reveal_strlit("cleanup_clipboard");
    reveal_strlit("trigger_shortcut");
    reveal_strlit("clear_history");
    reveal_strlit("settings");
    reveal_strlit("about");
    reveal_strlit("quit");
    assert(item[0] == 'c' && item[1] == 'l' && item[2] == 'i');
    assert("show_hide"@[0] == 's');
    assert("cleanup_clipboard"@[2] == 'e');
    assert("trigger_shortcut"@[0] == 't');
    assert("clear_history"@[2] == 'e');
    assert("settings"@[0] == 's');
    assert("about"@[0] == 'a');
    assert("quit"@[0] == 'q');
    assert(item.subrange(0, item_prefix().len() as int) =~= item_prefix());
    assert(item.skip(item_prefix().len() as int) =~= entry_id);
}

} // verus!

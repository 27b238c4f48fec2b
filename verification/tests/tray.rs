use clipify::entry::{ClipboardEntry, Timestamp};
use clipify::history::ClipboardHistory;
use clipify::tray::{
    parse_menu_event, recent_entries, tray_item_id, tray_item_label, MenuCommand, RECENT_ITEMS,
};

#[test]
fn the_menu_shows_the_ten_most_recent_entries() {
    let mut h = ClipboardHistory::new(50);
    for i in 0..12 {
        h.add_entry(ClipboardEntry::with_identity(
            i.to_string(),
            Timestamp { secs: 0, nanos: 0 },
            format!("entry {}", i),
            false,
            None,
        ));
    }
    let recent = recent_entries(&h);
    assert_eq!(RECENT_ITEMS, 10);
    assert_eq!(recent.len(), 10);
    assert_eq!(recent[0].id, "11");
    assert_eq!(recent[9].id, "2");
    let few = ClipboardHistory::new(5);
    assert!(recent_entries(&few).is_empty());
}

#[test]
fn a_label_is_the_preview_on_one_line() {
    assert_eq!(tray_item_label("short"), "\u{1F4CB} short");
    assert_eq!(tray_item_label("two\nlines\tand a tab"), "\u{1F4CB} two lines and a tab");
    assert_eq!(tray_item_label(""), "\u{1F4CB} ");
}

#[test]
fn a_long_label_is_shortened() {
    let long = "z".repeat(51);
    assert_eq!(tray_item_label(&long), format!("\u{1F4CB} {}...", "z".repeat(47)));
    let fits = "z".repeat(50);
    assert_eq!(tray_item_label(&fits), format!("\u{1F4CB} {}", fits));
}

#[test]
fn menu_items_stand_for_commands() {
    assert!(matches!(parse_menu_event("show_hide"), MenuCommand::ShowHide));
    assert!(matches!(parse_menu_event("cleanup_clipboard"), MenuCommand::CleanupClipboard));
    assert!(matches!(parse_menu_event("trigger_shortcut"), MenuCommand::TriggerShortcut));
    assert!(matches!(parse_menu_event("clear_history"), MenuCommand::ClearHistory));
    assert!(matches!(parse_menu_event("settings"), MenuCommand::Settings));
    assert!(matches!(parse_menu_event("about"), MenuCommand::About));
    assert!(matches!(parse_menu_event("quit"), MenuCommand::Quit));
    assert!(matches!(parse_menu_event("other"), MenuCommand::Unknown));
    assert!(matches!(parse_menu_event(""), MenuCommand::Unknown));
    assert!(matches!(parse_menu_event("clipboard_item"), MenuCommand::Unknown));
}

#[test]
fn the_item_of_an_entry_asks_for_that_entry() {
    assert_eq!(tray_item_id("abc-123"), "clipboard_item_abc-123");
    match parse_menu_event(&tray_item_id("abc-123")) {
        MenuCommand::PasteEntry(id) => assert_eq!(id, "abc-123"),
        other => panic!("unexpected command {:?}", other),
    }
    match parse_menu_event("clipboard_item_") {
        MenuCommand::PasteEntry(id) => assert_eq!(id, ""),
        other => panic!("unexpected command {:?}", other),
    }
}

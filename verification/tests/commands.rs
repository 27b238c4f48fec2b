use clipify::commands::{
    add_to_clipboard_history, clear_clipboard_history, get_clipboard_entry_by_id,
    get_clipboard_history, paste_from_history, remove_from_clipboard_history,
    search_clipboard_history, HistoryError,
};
use clipify::entry::{ClipboardEntry, Timestamp};
use clipify::history::ClipboardHistory;

fn sample() -> ClipboardHistory {
    let mut h = ClipboardHistory::new(5);
    for (id, content) in [("1", "alpha"), ("2", "Beta"), ("3", "https://gamma.example")] {
        h.add_entry(ClipboardEntry::with_identity(
            id.to_string(),
            Timestamp { secs: 7, nanos: 0 },
            content.to_string(),
            false,
            None,
        ));
    }
    h
}

#[test]
fn the_history_is_handed_out_as_copies() {
    let h = sample();
    let all = get_clipboard_history(&h);
    let ids: Vec<&str> = all.iter().map(|e| e.id.as_str()).collect();
    assert_eq!(ids, vec!["3", "2", "1"]);
    assert_eq!(all[1].content, "Beta");
}

#[test]
fn a_text_is_added_through_the_command() {
    let mut h = sample();
    add_to_clipboard_history(&mut h, "delta".to_string(), true, Some(" delta".to_string()));
    assert_eq!(h.get_entries().len(), 4);
    assert_eq!(h.get_entries()[0].content, "delta");
    assert_eq!(h.get_entries()[0].original_content, " delta");
    add_to_clipboard_history(&mut h, "alpha".to_string(), false, None);
    let contents: Vec<&str> = h.get_entries().iter().map(|e| e.content.as_str()).collect();
    assert_eq!(contents, vec!["alpha", "delta", "https://gamma.example", "Beta"]);
}

#[test]
fn an_entry_is_removed_through_the_command() {
    let mut h = sample();
    assert!(remove_from_clipboard_history(&mut h, "1"));
    assert!(!remove_from_clipboard_history(&mut h, "1"));
    assert_eq!(h.get_entries().len(), 2);
}

#[test]
fn the_history_is_cleared_through_the_command() {
    let mut h = sample();
    clear_clipboard_history(&mut h);
    assert!(h.get_entries().is_empty());
}

#[test]
fn a_search_hands_out_copies_of_what_it_finds() {
    let h = sample();
    let found = search_clipboard_history(&h, "BETA");
    assert_eq!(found.len(), 1);
    assert_eq!(found[0].id, "2");
    assert_eq!(search_clipboard_history(&h, "").len(), 3);
    assert_eq!(search_clipboard_history(&h, "url")[0].id, "3");
    assert!(search_clipboard_history(&h, "zeta").is_empty());
}

#[test]
fn an_entry_is_found_by_its_identifier() {
    let h = sample();
    assert_eq!(get_clipboard_entry_by_id(&h, "2").map(|e| e.content), Some("Beta".to_string()));
    assert!(get_clipboard_entry_by_id(&h, "9").is_none());
}

#[test]
fn pasting_gives_the_content_or_says_that_the_entry_is_missing() {
    let h = sample();
    assert_eq!(paste_from_history(&h, "1"), Ok("alpha".to_string()));
    assert_eq!(paste_from_history(&h, "nope"), Err(HistoryError::EntryNotFound));
}

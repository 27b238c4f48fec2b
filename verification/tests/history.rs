use clipify::entry::{ClipboardEntry, Timestamp};
use clipify::history::{ClipboardHistory, DEFAULT_MAX_ENTRIES, FALLBACK_MAX_ENTRIES};

fn entry(id: &str, content: &str) -> ClipboardEntry {
    ClipboardEntry::with_identity(
        id.to_string(),
        Timestamp { secs: 100, nanos: 0 },
        content.to_string(),
        false,
        None,
    )
}

fn contents(history: &ClipboardHistory) -> Vec<String> {
    history.get_entries().iter().map(|e| e.content.clone()).collect()
}

fn ids(history: &ClipboardHistory) -> Vec<String> {
    history.get_entries().iter().map(|e| e.id.clone()).collect()
}

#[test]
fn a_new_history_is_empty() {
    let h = ClipboardHistory::new(7);
    assert!(h.get_entries().is_empty());
    assert_eq!(h.max_entries, 7);
}

#[test]
fn the_oldest_entry_leaves_and_a_repeated_text_moves_to_the_front() {
    let mut h = ClipboardHistory::new(3);
    h.add_entry(entry("1", "A"));
    h.add_entry(entry("2", "B"));
    h.add_entry(entry("3", "C"));
    h.add_entry(entry("4", "D"));
    assert_eq!(contents(&h), vec!["D", "C", "B"]);
    h.add_entry(entry("5", "C"));
    assert_eq!(contents(&h), vec!["C", "D", "B"]);
    assert_eq!(ids(&h), vec!["5", "4", "2"]);
}

#[test]
fn adding_a_known_text_leaves_one_entry_of_it_in_front() {
    let mut h = ClipboardHistory::new(10);
    h.add_entry(entry("1", "x"));
    h.add_entry(entry("2", "y"));
    h.add_entry(entry("3", "x"));
    assert_eq!(contents(&h), vec!["x", "y"]);
    assert_eq!(ids(&h), vec!["3", "2"]);
    h.add_entry(entry("4", "X"));
    assert_eq!(contents(&h), vec!["X", "x", "y"]);
}

#[test]
fn adding_removes_every_entry_of_the_same_text() {
    let doubled = vec![entry("1", "x"), entry("2", "y"), entry("3", "x")];
    let mut h = ClipboardHistory::from_snapshot(doubled, 5);
    h.add_entry(entry("4", "x"));
    assert_eq!(ids(&h), vec!["4", "2"]);
}

#[test]
fn the_history_never_exceeds_its_limit() {
    let mut h = ClipboardHistory::new(4);
    for i in 0..20 {
        h.add_entry(entry(&i.to_string(), &format!("text {}", i)));
        assert!(h.get_entries().len() <= 4);
    }
    assert_eq!(contents(&h), vec!["text 19", "text 18", "text 17", "text 16"]);
    let mut none = ClipboardHistory::new(0);
    none.add_entry(entry("1", "a"));
    assert!(none.get_entries().is_empty());
}

#[test]
fn an_overfull_history_is_cut_back_by_the_next_entry() {
    let stored = vec![entry("1", "a"), entry("2", "b"), entry("3", "c"), entry("4", "d")];
    let mut h = ClipboardHistory::from_snapshot(stored, 2);
    assert_eq!(h.get_entries().len(), 4);
    h.add_entry(entry("5", "e"));
    assert_eq!(contents(&h), vec!["e", "a"]);
}

#[test]
fn removes_by_identifier() {
    let mut h = ClipboardHistory::new(5);
    h.add_entry(entry("1", "a"));
    h.add_entry(entry("2", "b"));
    h.add_entry(entry("3", "c"));
    assert!(h.remove_entry("2"));
    assert_eq!(contents(&h), vec!["c", "a"]);
    assert!(!h.remove_entry("2"));
    assert!(!h.remove_entry("a"));
    assert_eq!(contents(&h), vec!["c", "a"]);
    assert_eq!(h.max_entries, 5);
}

#[test]
fn clears_all_entries() {
    let mut h = ClipboardHistory::new(5);
    h.add_entry(entry("1", "a"));
    h.add_entry(entry("2", "b"));
    h.clear();
    assert!(h.get_entries().is_empty());
    assert_eq!(h.max_entries, 5);
}

#[test]
fn an_empty_query_finds_everything_in_order() {
    let mut h = ClipboardHistory::new(5);
    h.add_entry(entry("1", "first"));
    h.add_entry(entry("2", "second"));
    h.add_entry(entry("3", "third"));
    let found: Vec<&str> = h.search("").iter().map(|e| e.id.as_str()).collect();
    assert_eq!(found, vec!["3", "2", "1"]);
}

#[test]
fn a_query_finds_matching_entries_in_order() {
    let mut h = ClipboardHistory::new(10);
    h.add_entry(entry("1", "Hello World"));
    h.add_entry(entry("2", "https://example.org/hello"));
    h.add_entry(entry("3", "nothing here"));
    h.add_entry(entry("4", "HELLO again"));
    h.add_entry(entry("5", "me@example.org"));
    let found: Vec<&str> = h.search("hello").iter().map(|e| e.id.as_str()).collect();
    assert_eq!(found, vec!["4", "2", "1"]);
    let upper: Vec<&str> = h.search("HeLLo").iter().map(|e| e.id.as_str()).collect();
    assert_eq!(upper, found);
    let by_kind: Vec<&str> = h.search("URL").iter().map(|e| e.id.as_str()).collect();
    assert_eq!(by_kind, vec!["2"]);
    let mail: Vec<&str> = h.search("email").iter().map(|e| e.id.as_str()).collect();
    assert_eq!(mail, vec!["5"]);
    assert!(h.search("absent").is_empty());
}

#[test]
fn finds_the_first_entry_with_an_identifier() {
    let stored = vec![entry("1", "a"), entry("2", "b"), entry("2", "c")];
    let h = ClipboardHistory::from_snapshot(stored, 5);
    assert_eq!(h.get_entry_by_id("2").map(|e| e.content.as_str()), Some("b"));
    assert_eq!(h.get_entry_by_id("1").map(|e| e.content.as_str()), Some("a"));
    assert!(h.get_entry_by_id("3").is_none());
    assert!(h.get_entry_by_id("").is_none());
}

#[test]
fn a_stored_limit_of_zero_becomes_the_default() {
    let h = ClipboardHistory::from_snapshot(vec![entry("1", "a")], 0);
    assert_eq!(h.max_entries, 10);
    assert_eq!(DEFAULT_MAX_ENTRIES, 10);
    assert_eq!(FALLBACK_MAX_ENTRIES, 100);
    assert_eq!(contents(&h), vec!["a"]);
    let kept = ClipboardHistory::from_snapshot(Vec::new(), 25);
    assert_eq!(kept.max_entries, 25);
}

#[test]
fn recording_a_text_puts_it_in_front() {
    let mut h = ClipboardHistory::new(3);
    h.record("one".to_string(), false, None);
    h.record("two".to_string(), true, Some(" two ".to_string()));
    assert_eq!(contents(&h), vec!["two", "one"]);
    assert!(h.get_entries()[0].is_cleaned);
    assert_eq!(h.get_entries()[0].original_content, " two ");
    assert!(!h.get_entries()[1].is_cleaned);
    assert_ne!(h.get_entries()[0].id, h.get_entries()[1].id);
}

#[test]
fn a_capture_records_the_cleaned_and_the_captured_text() {
    let mut h = ClipboardHistory::new(5);
    h.record_capture("  some   text ".to_string(), "some text".to_string());
    assert_eq!(contents(&h), vec!["  some   text ", "some text"]);
    assert!(!h.get_entries()[0].is_cleaned);
    assert_eq!(h.get_entries()[0].original_content, "  some   text ");
    assert!(h.get_entries()[1].is_cleaned);
    assert_eq!(h.get_entries()[1].original_content, "  some   text ");
}

#[test]
fn a_capture_that_was_clean_is_recorded_once() {
    let mut h = ClipboardHistory::new(5);
    h.record_capture("clean".to_string(), "clean".to_string());
    assert_eq!(contents(&h), vec!["clean"]);
    assert!(h.get_entries()[0].is_cleaned);
    h.add_capture(entry("c", "same"), entry("r", "same"));
    assert_eq!(ids(&h), vec!["c", h.get_entries()[1].id.clone().as_str()]);
    h.add_capture(entry("c2", "tidy"), entry("r2", " tidy "));
    assert_eq!(&ids(&h)[..2], ["r2", "c2"]);
}

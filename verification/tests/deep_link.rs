use clipify::deep_link::{is_deep_link_argument, push_decimal, DeepLinkEvent, DeepLinkEventStore};

fn event(id: &str, url: &str, timestamp: u64) -> DeepLinkEvent {
    DeepLinkEvent {
        id: id.to_string(),
        url: url.to_string(),
        timestamp,
        source: "runtime".to_string(),
        processed: false,
        error: None,
    }
}

fn decimal(n: i64) -> String {
    let mut out = Vec::new();
    push_decimal(&mut out, n);
    out.into_iter().collect()
}

#[test]
fn integers_are_written_in_decimal() {
    for n in [0, 7, 10, 42, 100, 1_700_000_000_123, -1, -10, -9_999, i64::MAX, i64::MIN] {
        assert_eq!(decimal(n), n.to_string());
    }
    let mut out = vec!['x'];
    push_decimal(&mut out, 305);
    assert_eq!(out, vec!['x', '3', '0', '5']);
}

#[test]
fn an_event_keeps_what_it_brings() {
    let mut store = DeepLinkEventStore::new(3);
    store.add_event(event("given", "clipify://auth", 99));
    let all = store.get_all_events();
    assert_eq!(all.len(), 1);
    assert_eq!(all[0].id, "given");
    assert_eq!(all[0].timestamp, 99);
    assert_eq!(all[0].url, "clipify://auth");
    assert_eq!(all[0].source, "runtime");
    assert!(!all[0].processed);
}

#[test]
fn an_event_gets_what_it_lacks() {
    let mut store = DeepLinkEventStore::new(3);
    store.add_event_at(event("", "clipify://a", 0), 1_234, 5_678);
    store.add_event_at(event("", "clipify://b", 17), -5, 1);
    store.add_event_at(event("own", "clipify://c", 0), 1, -1);
    let all = store.get_all_events();
    assert_eq!(all[0].id, "dl_1234");
    assert_eq!(all[0].timestamp, 5_678);
    assert_eq!(all[1].id, "dl_-5");
    assert_eq!(all[1].timestamp, 17);
    assert_eq!(all[2].id, "own");
    assert_eq!(all[2].timestamp, u64::MAX);
    let mut live = DeepLinkEventStore::new(3);
    live.add_event(event("", "clipify://now", 0));
    let stored = live.get_all_events();
    assert!(stored[0].id.starts_with("dl_1"));
    assert!(stored[0].timestamp > 1_600_000_000_000);
}

#[test]
fn the_oldest_event_leaves_when_the_store_is_full() {
    let mut store = DeepLinkEventStore::new(2);
    store.add_event(event("a", "clipify://a", 1));
    store.add_event(event("b", "clipify://b", 2));
    store.add_event(event("c", "clipify://c", 3));
    let ids: Vec<String> = store.get_all_events().into_iter().map(|e| e.id).collect();
    assert_eq!(ids, vec!["b", "c"]);
    let mut none = DeepLinkEventStore::new(0);
    none.add_event(event("a", "clipify://a", 1));
    assert!(none.get_all_events().is_empty());
}

#[test]
fn events_are_marked_as_processed() {
    let mut store = DeepLinkEventStore::new(5);
    store.add_event(event("a", "clipify://a", 1));
    store.add_event(event("b", "clipify://b", 2));
    store.add_event(event("b", "clipify://b2", 3));
    assert!(store.mark_processed("b"));
    assert!(!store.mark_processed("z"));
    let all = store.get_all_events();
    assert!(!all[0].processed);
    assert!(all[1].processed);
    assert!(all[1].error.is_none());
    assert!(!all[2].processed);
    let pending: Vec<String> = store.get_unprocessed_events().into_iter().map(|e| e.url).collect();
    assert_eq!(pending, vec!["clipify://a", "clipify://b2"]);
}

#[test]
fn events_are_marked_with_an_error() {
    let mut store = DeepLinkEventStore::new(5);
    store.add_event(event("a", "clipify://a", 1));
    assert!(store.mark_error("a", "bad link".to_string()));
    assert!(!store.mark_error("b", "bad link".to_string()));
    let all = store.get_all_events();
    assert!(all[0].processed);
    assert_eq!(all[0].error.as_deref(), Some("bad link"));
    assert!(store.mark_processed("a"));
    assert_eq!(store.get_all_events()[0].error.as_deref(), Some("bad link"));
    assert!(store.get_unprocessed_events().is_empty());
}

#[test]
fn the_store_is_cleared() {
    let mut store = DeepLinkEventStore::new(5);
    store.add_event(event("a", "clipify://a", 1));
    store.clear_events();
    assert!(store.get_all_events().is_empty());
}

#[test]
fn deep_links_are_told_by_their_scheme() {
    assert!(is_deep_link_argument("clipify://auth?token=1"));
    assert!(is_deep_link_argument("clipify-dev://x"));
    assert!(is_deep_link_argument("appclipify://"));
    assert!(!is_deep_link_argument("clipify:/x"));
    assert!(!is_deep_link_argument("https://clipify://"));
    assert!(!is_deep_link_argument("--flag"));
    assert!(!is_deep_link_argument(""));
}

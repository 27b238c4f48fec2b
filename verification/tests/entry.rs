use clipify::classify::{kind_from_name, shorten, ContentType};
use clipify::entry::{ClipboardEntry, Timestamp};

fn entry(content: &str) -> ClipboardEntry {
    ClipboardEntry::with_identity(
        "id-1".to_string(),
        Timestamp { secs: 1_700_000_000, nanos: 5 },
        content.to_string(),
        false,
        None,
    )
}

#[test]
fn classifies_by_the_first_rule_that_holds() {
    assert_eq!(entry("https://x.com").content_type, ContentType::Url);
    assert_eq!(entry("http://x.com").content_type, ContentType::Url);
    assert_eq!(entry("a@b.com").content_type, ContentType::Email);
    assert_eq!(entry("+1 (555) 123-4567").content_type, ContentType::Phone);
    assert_eq!(entry("hello\nworld").content_type, ContentType::Text);
    assert_eq!(entry("a@b.com\nnext").content_type, ContentType::Text);
    assert_eq!(entry("https://a@b.com").content_type, ContentType::Url);
    assert_eq!(entry("HTTP://x.com").content_type, ContentType::Text);
    assert_eq!(entry("12.5@3").content_type, ContentType::Email);
    assert_eq!(entry("").content_type, ContentType::Phone);
    assert_eq!(entry("\u{0663}\u{00bd} 12").content_type, ContentType::Phone);
    assert_eq!(entry("12a").content_type, ContentType::Text);
}

#[test]
fn counts_characters_and_lines() {
    let e = entry("h\u{e9}llo\nw\u{f6}rld");
    assert_eq!(e.char_count, 11);
    assert_eq!(e.line_count, 2);
    assert_eq!(entry("").line_count, 0);
    assert_eq!(entry("").char_count, 0);
    assert_eq!(entry("a").line_count, 1);
    assert_eq!(entry("a\n").line_count, 1);
    assert_eq!(entry("\n").line_count, 1);
    assert_eq!(entry("\n\n").line_count, 2);
    assert_eq!(entry("a\nb\nc").line_count, 3);
    assert_eq!(entry("a\r\nb").line_count, 2);
}

#[test]
fn detects_formatting() {
    assert!(!entry("plain text").has_formatting);
    assert!(!entry("").has_formatting);
    assert!(entry("a\nb").has_formatting);
    assert!(entry("a\tb").has_formatting);
    assert!(entry("a\rb").has_formatting);
    assert!(entry("a\u{a0}b").has_formatting);
}

#[test]
fn short_content_is_its_own_preview() {
    let hundred = "x".repeat(100);
    assert_eq!(entry(&hundred).preview, hundred);
    assert_eq!(entry("abc").preview, "abc");
    assert_eq!(entry("").preview, "");
}

#[test]
fn long_content_is_shortened_in_the_preview() {
    let long = "y".repeat(101);
    let expected = format!("{}...", "y".repeat(97));
    let e = entry(&long);
    assert_eq!(e.preview, expected);
    assert_eq!(e.preview.len(), 100);
}

#[test]
fn preview_is_cut_between_characters() {
    // 60 characters of two bytes each: 120 bytes, cut after 48 of them (96 bytes).
    let long = "\u{e9}".repeat(60);
    let expected = format!("{}...", "\u{e9}".repeat(48));
    assert_eq!(entry(&long).preview, expected);
    // 96 one-byte characters, then one of two bytes that would cross the limit.
    let mixed = format!("{}\u{e9}{}", "a".repeat(96), "b".repeat(10));
    assert_eq!(entry(&mixed).preview, format!("{}...", "a".repeat(96)));
    // 34 characters of three bytes: 102 bytes, 32 of them fit into 97.
    let wide = "\u{4e2d}".repeat(34);
    assert_eq!(entry(&wide).preview, format!("{}...", "\u{4e2d}".repeat(32)));
    // 50 characters of two bytes are 100 bytes and stay whole.
    let fits = "\u{e9}".repeat(50);
    assert_eq!(entry(&fits).preview, fits);
}

#[test]
fn original_content_defaults_to_content() {
    let plain = entry("text");
    assert_eq!(plain.original_content, "text");
    assert!(!plain.is_cleaned);
    let cleaned = ClipboardEntry::with_identity(
        "id-2".to_string(),
        Timestamp { secs: 1, nanos: 2 },
        "text".to_string(),
        true,
        Some("  text  ".to_string()),
    );
    assert_eq!(cleaned.original_content, "  text  ");
    assert_eq!(cleaned.content, "text");
    assert!(cleaned.is_cleaned);
    assert_eq!(cleaned.id, "id-2");
    assert_eq!(cleaned.timestamp, Timestamp { secs: 1, nanos: 2 });
}

#[test]
fn new_entries_get_a_random_identifier_and_the_time() {
    let a = ClipboardEntry::new("same".to_string(), false, None);
    let b = ClipboardEntry::new("same".to_string(), false, None);
    assert_ne!(a.id, b.id);
    for e in [&a, &b] {
        let id: Vec<char> = e.id.chars().collect();
        assert_eq!(id.len(), 36);
        for (i, c) in id.iter().enumerate() {
            if i == 8 || i == 13 || i == 18 || i == 23 {
                assert_eq!(*c, '-');
            } else {
                assert!(matches!(*c, '0'..='9' | 'a'..='f'));
            }
        }
        assert_eq!(id[14], '4');
        assert!(matches!(id[19], '8' | '9' | 'a' | 'b'));
        assert!(e.timestamp.secs > 1_600_000_000);
        assert!(e.timestamp.nanos < 1_000_000_000);
        assert_eq!(e.content, "same");
        assert_eq!(e.original_content, "same");
        assert_eq!(e.content_type, ContentType::Text);
        assert_eq!(e.char_count, 4);
        assert_eq!(e.line_count, 1);
        assert_eq!(e.preview, "same");
    }
}

#[test]
fn search_matches_content_whatever_the_case() {
    let e = entry("Hello World");
    assert!(e.matches_search("hello"));
    assert!(e.matches_search("WORLD"));
    assert!(e.matches_search("lo wo"));
    assert!(e.matches_search(""));
    assert!(!e.matches_search("worlds"));
    let accented = entry("\u{c9}COLE");
    assert!(accented.matches_search("\u{e9}cole"));
}

#[test]
fn search_matches_the_name_of_the_kind() {
    assert!(entry("https://example.org").matches_search("URL"));
    assert!(entry("a@b.com").matches_search("mail"));
    assert!(entry("555 1234").matches_search("Phone"));
    assert!(entry("some words").matches_search("TEXT"));
    assert!(!entry("some words").matches_search("url"));
}

#[test]
fn kinds_have_names() {
    assert_eq!(ContentType::Text.name(), "text");
    assert_eq!(ContentType::Url.name(), "url");
    assert_eq!(ContentType::Email.name(), "email");
    assert_eq!(ContentType::Phone.name(), "phone");
    for kind in [ContentType::Text, ContentType::Url, ContentType::Email, ContentType::Phone] {
        assert_eq!(kind_from_name(kind.name()), Some(kind));
    }
    assert_eq!(kind_from_name("Text"), None);
    assert_eq!(kind_from_name(""), None);
}

#[test]
fn a_copy_of_an_entry_equals_it() {
    let e = entry("copy me\nplease");
    let c = e.clone();
    assert_eq!(c.id, e.id);
    assert_eq!(c.content, e.content);
    assert_eq!(c.original_content, e.original_content);
    assert_eq!(c.is_cleaned, e.is_cleaned);
    assert_eq!(c.timestamp, e.timestamp);
    assert_eq!(c.char_count, e.char_count);
    assert_eq!(c.line_count, e.line_count);
    assert_eq!(c.has_formatting, e.has_formatting);
    assert_eq!(c.content_type, e.content_type);
    assert_eq!(c.preview, e.preview);
}

#[test]
fn a_time_is_counted_in_milliseconds() {
    assert_eq!(Timestamp { secs: 0, nanos: 0 }.millis(), 0);
    assert_eq!(Timestamp { secs: 1, nanos: 444_000_000 }.millis(), 1_444);
    assert_eq!(Timestamp { secs: 1_000_000_000, nanos: 555_999_999 }.millis(), 1_000_000_000_555);
    assert_eq!(Timestamp { secs: -1, nanos: 250_000_000 }.millis(), -750);
    assert_eq!(Timestamp { secs: i64::MAX, nanos: 0 }.millis(), i64::MAX);
    assert_eq!(Timestamp { secs: i64::MIN, nanos: 0 }.millis(), i64::MIN);
}

#[test]
fn a_text_is_shortened_to_any_limit() {
    let text: Vec<char> = "abcdefghij".chars().collect();
    let short = |limit: usize| -> String { shorten(&text, limit).into_iter().collect() };
    assert_eq!(short(10), "abcdefghij");
    assert_eq!(short(200), "abcdefghij");
    assert_eq!(short(9), "abcdef...");
    assert_eq!(short(4), "a...");
    assert_eq!(short(3), "...");
    assert_eq!(short(2), "...");
    assert_eq!(short(0), "...");
    assert_eq!(shorten(&Vec::new(), 0), Vec::<char>::new());
}

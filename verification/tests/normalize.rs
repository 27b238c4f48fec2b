use clipify::normalize::cleanup_text;

#[test]
fn collapses_runs_of_spaces_and_tabs() {
    assert_eq!(cleanup_text("Hello,   World!\t\tFoo"), "Hello, World! Foo");
}

#[test]
fn caps_blank_lines_at_one() {
    assert_eq!(cleanup_text("line1\n\n\n\nline2"), "line1\n\nline2");
}

#[test]
fn caps_any_run_of_line_feeds_at_two() {
    assert_eq!(cleanup_text("a\n\n\nb"), "a\n\nb");
    assert_eq!(cleanup_text("a\n\n\n\n\n\n\nb"), "a\n\nb");
    assert_eq!(cleanup_text("a\n\nb"), "a\n\nb");
    assert_eq!(cleanup_text("a\nb"), "a\nb");
    assert_eq!(cleanup_text("a\n \n\t\n  \nb"), "a\n\nb");
}

#[test]
fn blank_text_gives_empty_text() {
    assert_eq!(cleanup_text(""), "");
    assert_eq!(cleanup_text("   "), "");
    assert_eq!(cleanup_text(" \t\r\n \n"), "");
    assert_eq!(cleanup_text("\u{a0}\u{3000}"), "");
}

#[test]
fn unifies_line_endings() {
    assert_eq!(cleanup_text("a\r\nb\rc\nd"), "a\nb\nc\nd");
    assert_eq!(cleanup_text("a\r\n\r\nb"), "a\n\nb");
    assert_eq!(cleanup_text("a\r\rb"), "a\n\nb");
    assert_eq!(cleanup_text("a\r"), "a");
    assert_eq!(cleanup_text("a\r\n"), "a");
}

#[test]
fn a_lone_tab_becomes_a_space() {
    assert_eq!(cleanup_text("a\tb"), "a b");
    assert_eq!(cleanup_text("a \tb"), "a b");
    assert_eq!(cleanup_text("a\t b"), "a b");
}

#[test]
fn keeps_the_first_and_the_last_character() {
    assert_eq!(cleanup_text("x"), "x");
    assert_eq!(cleanup_text("ab"), "ab");
    assert_eq!(cleanup_text("a  b"), "a b");
    assert_eq!(cleanup_text("word\t"), "word");
    assert_eq!(cleanup_text("  lead and trail  "), "lead and trail");
}

#[test]
fn trims_every_line() {
    assert_eq!(cleanup_text("  a  \n  b  "), "a\nb");
    assert_eq!(cleanup_text("a \u{a0}\n\u{a0} b"), "a\nb");
    assert_eq!(cleanup_text("\n\n  a\n\n"), "a");
}

#[test]
fn other_whitespace_stays_within_a_line() {
    assert_eq!(cleanup_text("a\u{a0}\u{a0}b"), "a\u{a0}\u{a0}b");
    assert_eq!(cleanup_text("a \u{a0} b"), "a \u{a0} b");
}

#[test]
fn cleaning_twice_is_cleaning_once() {
    let samples = [
        "Hello,   World!\t\tFoo",
        "line1\n\n\n\nline2",
        "  a \t\r\n\r\n\r\n b\t",
        "\r\r\rx\r\r\r",
        "a\n\n\n\nb\n\n\n\n\nc",
        "tab\tat\tend\t",
        " \u{a0} mixed \u{2003}\n x ",
        "",
    ];
    for sample in samples {
        let once = cleanup_text(sample);
        assert_eq!(cleanup_text(&once), once);
    }
}

#[test]
fn cleaned_text_holds_no_three_line_feeds() {
    let cleaned = cleanup_text("a\n\n\n\n\nb\r\n\r\n\r\n\r\nc\n \n \n \nd");
    assert_eq!(cleaned, "a\n\nb\n\nc\n\nd");
    assert!(!cleaned.contains("\n\n\n"));
}

#[test]
fn a_run_of_line_feeds_between_two_texts_becomes_two() {
    let pairs = [
        ("a", "b"),
        ("a\r", "b"),
        ("  first line \t", "\t second"),
        ("x\n\n", "\n\ny"),
        ("one\ntwo \n \n", " \n three\t\r"),
        ("tab\t", "\rret"),
    ];
    for (before, after) in pairs {
        for run in 2..7 {
            let text = format!("{}{}{}", before, "\n".repeat(run), after);
            let expected = format!("{}\n\n{}", cleanup_text(before), cleanup_text(after));
            assert_eq!(cleanup_text(&text), expected);
        }
    }
}

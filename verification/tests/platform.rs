use clipify::platform::{
    accessibility_instructions, failed_status, judge_probe, listed_among_handlers,
    names_default_application, needs_restart, parse_major_version, parse_number, plain_status,
    registry_status, ProbeResult, ProbeVerdict,
};

fn probe(ran: bool, succeeded: bool, error: &str) -> ProbeResult {
    ProbeResult { ran, succeeded, error_output: error.to_string() }
}

fn number(text: &str) -> Option<u32> {
    parse_number(&text.chars().collect())
}

#[test]
fn a_probe_that_succeeds_shows_the_permission() {
    assert_eq!(judge_probe(true, &probe(true, true, "")), ProbeVerdict::Granted);
    assert_eq!(judge_probe(false, &probe(true, true, "permission")), ProbeVerdict::Granted);
}

#[test]
fn a_probe_that_is_turned_down_shows_the_denial() {
    for error in [
        "osascript is not allowed assistive access. (-1719)",
        "no accessibility for you",
        "missing permission",
        "error 1002",
    ] {
        assert_eq!(judge_probe(true, &probe(true, false, error)), ProbeVerdict::Denied);
        assert_eq!(judge_probe(false, &probe(true, false, error)), ProbeVerdict::Denied);
    }
    assert_eq!(judge_probe(true, &probe(true, false, "Not authorized")), ProbeVerdict::Denied);
    assert_eq!(judge_probe(false, &probe(true, false, "Not authorized")), ProbeVerdict::Inconclusive);
}

#[test]
fn any_other_probe_shows_nothing() {
    assert_eq!(judge_probe(true, &probe(true, false, "syntax error")), ProbeVerdict::Inconclusive);
    assert_eq!(judge_probe(true, &probe(true, false, "Permission")), ProbeVerdict::Inconclusive);
    assert_eq!(judge_probe(true, &probe(false, false, "permission")), ProbeVerdict::Inconclusive);
    assert_eq!(judge_probe(true, &probe(false, true, "")), ProbeVerdict::Inconclusive);
}

#[test]
fn some_errors_ask_for_a_restart() {
    assert!(needs_restart("You may need to restart the app after granting permissions."));
    assert!(needs_restart("Unable to verify accessibility permissions."));
    assert!(!needs_restart("Accessibility permissions required."));
    assert!(!needs_restart(""));
}

#[test]
fn numbers_are_read_from_digits() {
    assert_eq!(number("0"), Some(0));
    assert_eq!(number("13"), Some(13));
    assert_eq!(number("+7"), Some(7));
    assert_eq!(number("007"), Some(7));
    assert_eq!(number("4294967295"), Some(u32::MAX));
    assert_eq!(number("4294967296"), None);
    assert_eq!(number("99999999999999999999999"), None);
    assert_eq!(number(""), None);
    assert_eq!(number("+"), None);
    assert_eq!(number("-1"), None);
    assert_eq!(number("1 "), None);
    assert_eq!(number("1a"), None);
    assert_eq!(number("++1"), None);
    for text in ["0", "13", "+7", "007", "4294967295", "4294967296", "", "+", "-1", "1a", "\u{0663}"] {
        assert_eq!(number(text), text.parse::<u32>().ok());
    }
}

#[test]
fn the_major_version_stands_before_the_first_dot() {
    assert_eq!(parse_major_version("14.2.1"), Some(14));
    assert_eq!(parse_major_version("13"), Some(13));
    assert_eq!(parse_major_version("12.7"), Some(12));
    assert_eq!(parse_major_version(".5"), None);
    assert_eq!(parse_major_version(""), None);
    assert_eq!(parse_major_version("beta.1"), None);
}

#[test]
fn the_instructions_go_by_the_version() {
    let new = "Please go to System Settings > Privacy & Security > Accessibility and add Clipify to the list of allowed applications.";
    let old = "Please go to System Preferences > Security & Privacy > Privacy > Accessibility and add Clipify to the list of allowed applications.";
    let either = "Please go to System Settings > Privacy & Security > Accessibility (macOS 13+) or System Preferences > Security & Privacy > Privacy > Accessibility (macOS 12 and earlier) and add Clipify to the list of allowed applications.";
    assert_eq!(accessibility_instructions(Some("13.0")), new);
    assert_eq!(accessibility_instructions(Some("15.1.2")), new);
    assert_eq!(accessibility_instructions(Some("12.6.1")), old);
    assert_eq!(accessibility_instructions(Some("10.15")), old);
    assert_eq!(accessibility_instructions(Some("unknown")), either);
    assert_eq!(accessibility_instructions(Some("")), either);
    assert_eq!(accessibility_instructions(None), either);
}

#[test]
fn a_scheme_is_sought_among_the_handlers() {
    let listing = "{ LSHandlerRoleAll = \"com.app\"; LSHandlerURLScheme = \"clipify\"; }";
    assert!(listed_among_handlers(listing, "clipify"));
    assert!(!listed_among_handlers(listing, "clipify-dev"));
    assert!(!listed_among_handlers(listing, "clip"));
    assert!(!listed_among_handlers("", "clipify"));
}

#[test]
fn an_answer_names_an_application_or_not() {
    assert!(names_default_application("clipify.desktop\n"));
    assert!(!names_default_application(""));
    assert!(!names_default_application("  \n"));
    assert!(!names_default_application("No default application for x-scheme-handler/clipify"));
}

#[test]
fn the_registry_shows_a_registration() {
    let full = registry_status("clipify", true, true, true);
    assert_eq!(full.scheme, "clipify");
    assert!(full.is_registered);
    assert!(full.error.is_none());
    let missing = registry_status("clipify", false, true, true);
    assert!(!missing.is_registered);
    assert_eq!(missing.error.as_deref(), Some("Protocol key not found in registry"));
    let partial = registry_status("clipify", true, true, false);
    assert!(!partial.is_registered);
    assert_eq!(
        partial.error.as_deref(),
        Some("Protocol partially registered - URL Protocol: true, Command Handler: false")
    );
    let neither = registry_status("clipify", true, false, false);
    assert_eq!(
        neither.error.as_deref(),
        Some("Protocol partially registered - URL Protocol: false, Command Handler: false")
    );
}

#[test]
fn a_status_is_made_of_what_is_known() {
    let plain = plain_status("appclipify", true);
    assert_eq!(plain.scheme, "appclipify");
    assert!(plain.is_registered);
    assert!(plain.error.is_none());
    let failed = failed_status("appclipify", "could not ask".to_string());
    assert_eq!(failed.scheme, "appclipify");
    assert!(!failed.is_registered);
    assert_eq!(failed.error.as_deref(), Some("could not ask"));
}

use clipify::link::{format_deep_link_for_notification, summarize_link, summarize_parts, UrlParts};

fn parts(scheme: &str, host: Option<&str>, path: &str) -> UrlParts {
    UrlParts {
        scheme: scheme.to_string(),
        host: host.map(|h| h.to_string()),
        path: path.to_string(),
    }
}

#[test]
fn a_short_link_is_shown_as_it_is() {
    assert_eq!(format_deep_link_for_notification("clipify://auth?x=1"), "clipify://auth?x=1");
    let fifty = format!("clipify://{}", "a".repeat(40));
    assert_eq!(fifty.len(), 50);
    assert_eq!(format_deep_link_for_notification(&fifty), fifty);
    assert_eq!(format_deep_link_for_notification(""), "");
}

#[test]
fn a_long_sign_in_link_is_named() {
    let link = format!("clipify://app/auth/callback?token={}", "t".repeat(60));
    assert_eq!(format_deep_link_for_notification(&link), "clipify://auth (Authentication)");
}

#[test]
fn a_long_link_of_the_application_is_shown_by_its_path() {
    let link = format!("clipify://open/settings/profile?tab={}", "x".repeat(60));
    assert_eq!(format_deep_link_for_notification(&link), "clipify://settings/profile");
}

#[test]
fn a_long_url_is_shown_by_scheme_and_host() {
    let long_path = format!("https://example.com/a/very/long/path/that/goes/on?q={}", "1".repeat(30));
    assert_eq!(format_deep_link_for_notification(&long_path), "https://example.com...");
    let short_path = format!("https://example.com/short?q={}", "1".repeat(60));
    assert_eq!(format_deep_link_for_notification(&short_path), "https://example.com/short");
    let upper = format!("HTTPS://EXAMPLE.com/short?q={}", "1".repeat(60));
    assert_eq!(format_deep_link_for_notification(&upper), "https://example.com/short");
}

#[test]
fn a_long_url_without_host_is_shown_by_scheme_and_path() {
    let link = format!("mailto:someone@example.com?subject={}", "s".repeat(60));
    assert_eq!(format_deep_link_for_notification(&link), "mailto://someone@example.com");
}

#[test]
fn a_long_text_that_is_no_url_is_shortened() {
    let text = format!("not a url {}", "w".repeat(60));
    let expected = format!("not a url {}...", "w".repeat(37));
    assert_eq!(format_deep_link_for_notification(&text), expected);
    let accented = "\u{e9}".repeat(40);
    assert_eq!(
        format_deep_link_for_notification(&accented),
        format!("{}...", "\u{e9}".repeat(23))
    );
}

#[test]
fn parts_are_summed_up() {
    assert_eq!(summarize_parts(&parts("clipify", Some("x"), "/auth")), "clipify://auth (Authentication)");
    assert_eq!(summarize_parts(&parts("clipify", Some("x"), "///a/b")), "clipify://a/b");
    assert_eq!(summarize_parts(&parts("clipify", Some("x"), "/")), "clipify://x/");
    assert_eq!(summarize_parts(&parts("clipify", None, "")), "clipify://");
    assert_eq!(summarize_parts(&parts("clipify", Some(""), "/")), "clipify:///");
    assert_eq!(summarize_parts(&parts("ftp", Some("h"), "/auth")), "ftp://h/auth");
    let twenty = format!("/{}", "p".repeat(19));
    assert_eq!(summarize_parts(&parts("ftp", Some("h"), &twenty)), format!("ftp://h{}", twenty));
    let more = format!("/{}", "p".repeat(20));
    assert_eq!(summarize_parts(&parts("ftp", Some("h"), &more)), "ftp://h...");
    assert_eq!(summarize_parts(&parts("ftp", None, &more)), format!("ftp://{}", more));
}

#[test]
fn the_parts_count_only_for_a_long_link() {
    assert_eq!(summarize_link("short", Some(parts("a", Some("b"), "/c"))), "short");
    let long = "l".repeat(51);
    assert_eq!(summarize_link(&long, Some(parts("a", Some("b"), "/c"))), "a://b/c");
    assert_eq!(summarize_link(&long, None), format!("{}...", "l".repeat(47)));
}

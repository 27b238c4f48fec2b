//! The short form in which a deep link is shown to the user.

use crate::classify::{ellipsis, exceeds_bytes, shorten, shortened, utf8_len};
use crate::text::{append_chars, contains_chars, contains_text, from_chars, to_chars};
use vstd::prelude::*;

verus! {

/// Whether `url::Url::parse` accepts a text as an absolute URL.
pub uninterp spec fn url_parses(s: Seq<char>) -> bool;

/// What `url::Url::scheme` returns for the URL parsed from a text: its scheme in
/// lowercase, without the colon.
pub uninterp spec fn url_scheme(s: Seq<char>) -> Seq<char>;

/// What `url::Url::host_str` returns for the URL parsed from a text: its host as
/// it is written in the URL, if it has one.
pub uninterp spec fn url_host(s: Seq<char>) -> Option<Seq<char>>;

/// What `url::Url::path` returns for the URL parsed from a text: its path,
/// percent-encoded.
pub uninterp spec fn url_path(s: Seq<char>) -> Seq<char>;

/// The parts of a URL that its short form is made of.
#[derive(Debug)]
pub struct UrlParts {
    pub scheme: String,
    pub host: Option<String>,
    pub path: String,
}

/// The value of [`UrlParts`].
pub struct UrlPartsView {
    pub scheme: Seq<char>,
    pub host: Option<Seq<char>>,
    pub path: Seq<char>,
}

impl View for UrlParts {
    type V = UrlPartsView;

    open spec fn view(&self) -> UrlPartsView {
        UrlPartsView {
            scheme: self.scheme@,
            host: match self.host {
                Some(h) => Some(h@),
                None => None,
            },
            path: self.path@,
        }
    }
}

/// The parts of the URL that a text is parsed to, if it is parsed to one.
pub open spec fn url_parts(s: Seq<char>) -> Option<UrlPartsView> {
    if url_parses(s) {
        Some(UrlPartsView { scheme: url_scheme(s), host: url_host(s), path: url_path(s) })
    } else {
        None
    }
}

/// Parses a text with `url::Url::parse` and takes the scheme, the host and the
/// path of the URL with `Url::scheme`, `Url::host_str` and `Url::path`. Nothing
/// is claimed of them but that they are the ones these functions give for the
/// text, and that there are none where the text is refused.
#[verifier::external_body]
fn parse_url(s: &str) -> (parts: Option<UrlParts>)
    ensures
        parts is Some == url_parses(s@),
        parts matches Some(p) ==> p@.scheme == url_scheme(s@) && p@.host == url_host(s@)
            && p@.path == url_path(s@),
{
    match url::Url::parse(s) {
        Ok(u) => Some(
            UrlParts {
                scheme: u.scheme().to_string(),
                host: match u.host_str() {
                    Some(h) => Some(h.to_string()),
                    None => None,
                },
                path: u.path().to_string(),
            },
        ),
        Err(_) => None,
    }
}

/// The value of optional parts.
pub open spec fn option_parts_view(parts: Option<UrlParts>) -> Option<UrlPartsView> {
    match parts {
        Some(p) => Some(p@),
        None => None,
    }
}

/// A text without the slashes it begins with.
pub open spec fn without_leading_slashes(s: Seq<char>) -> Seq<char>
    decreases s.len(),
{
    if s.len() > 0 && s[0] == '/' {
        without_leading_slashes(s.skip(1))
    } else {
        s
    }
}

/// The short form of a URL with the given parts. A link of the application
/// itself is shown as the sign-in link where its path holds `auth`, and else by
/// its path, if it has one; any other URL by its scheme and host, and by its
/// path where that is short or there is no host.
pub open spec fn parts_summary(p: UrlPartsView) -> Seq<char> {
    let host = match p.host {
        Some(h) => h,
        None => Seq::empty(),
    };
    if p.scheme == "clipify"@ && contains_text(p.path, "auth"@) {
        "clipify://auth (Authentication)"@
    } else if p.scheme == "clipify"@ && p.path.len() > 0 && p.path != "/"@ {
        "clipify://"@ + without_leading_slashes(p.path)
    } else if host.len() == 0 {
        p.scheme + "://"@ + p.path
    } else {
        p.scheme + "://"@ + host + if utf8_len(p.path) > 20 {
            ellipsis()
        } else {
            p.path
        }
    }
}

/// The short form of a link: the link itself where it takes no more than fifty
/// bytes; else the short form of its parts where it is a URL, and the link
/// shortened to fifty bytes where it is none.
pub open spec fn link_summary(link: Seq<char>, parts: Option<UrlPartsView>) -> Seq<char> {
    if utf8_len(link) <= 50 {
        link
    } else {
        match parts {
            Some(p) => parts_summary(p),
            None => shortened(link, 50),
        }
    }
}

/// A path without the slashes it begins with.
fn strip_leading_slashes(path: &Vec<char>) -> (out: Vec<char>)
    ensures
        out@ == without_leading_slashes(path@),
{
    let mut i: usize = 0;
    assert(path@.skip(0) == path@);
    while i < path.len() && path[i] == '/'
        invariant
            i <= path.len(),
            without_leading_slashes(path@) == without_leading_slashes(path@.skip(i as int)),
        decreases path.len() - i,
    {
        assert(path@.skip(i as int).skip(1) == path@.skip(i + 1));
        i += 1;
    }
    let mut out: Vec<char> = Vec::new();
    let mut j: usize = i;
    while j < path.len()
        invariant
            i <= j <= path.len(),
            out@ == path@.subrange(i as int, j as int),
        decreases path.len() - j,
    {
        out.push(path[j]);
        j += 1;
    }
    assert(path@.subrange(i as int, path@.len() as int) == path@.skip(i as int));
    out
}

/// Whether two texts hold the same characters.
fn chars_eq(a: &Vec<char>, b: &Vec<char>) -> (r: bool)
    ensures
        r == (a@ == b@),
{
    if a.len() != b.len() {
        return false;
    }
    let mut i: usize = 0;
    while i < a.len()
        invariant
            i <= a.len(),
            a.len() == b.len(),
            forall|j: int| 0 <= j < i ==> a@[j] == b@[j],
        decreases a.len() - i,
    {
        if a[i] != b[i] {
            return false;
        }
        i += 1;
    }
    assert(a@ =~= b@);
    true
}

/// The short form of a URL with the given parts.
pub fn summarize_parts(parts: &UrlParts) -> (summary: String)
    ensures
        summary@ == parts_summary(parts@),
{
    let scheme = to_chars(parts.scheme.as_str());
    let path = to_chars(parts.path.as_str());
    let own = chars_eq(&scheme, &to_chars("clipify"));
    if own && contains_chars(&path, &to_chars("auth")) {
        return "clipify://auth (Authentication)".to_owned();
    }
    if own && path.len() > 0 && !chars_eq(&path, &to_chars("/")) {
        let mut out = to_chars("clipify://");
        append_chars(&mut out, &strip_leading_slashes(&path));
        return from_chars(&out);
    }
    let host = match &parts.host {
        Some(h) => to_chars(h.as_str()),
        None => Vec::new(),
    };
    let mut out = scheme;
    append_chars(&mut out, &to_chars("://"));
    if host.len() == 0 {
        append_chars(&mut out, &path);
    } else {
        append_chars(&mut out, &host);
        if exceeds_bytes(&path, 20) {
            out.push('.');
            out.push('.');
            out.push('.');
            assert(out@ =~= parts@.scheme + "://"@ + host@ + ellipsis());
        } else {
            append_chars(&mut out, &path);
        }
    }
    from_chars(&out)
}

/// The short form of a link whose parts, if it is a URL, are given.
pub fn summarize_link(link: &str, parts: Option<UrlParts>) -> (summary: String)
    ensures
        summary@ == link_summary(link@, option_parts_view(parts)),
{
    let chars = to_chars(link);
    if !exceeds_bytes(&chars, 50) {
        return link.to_owned();
    }
    match parts {
        Some(p) => summarize_parts(&p),
        None => from_chars(&shorten(&chars, 50)),
    }
}

/// The short form of a deep link, as a notification shows it.
pub fn format_deep_link_for_notification(link: &str) -> (summary: String)
    ensures
        summary@ == link_summary(link@, url_parts(link@)),
{
    let parts = parse_url(link);
    summarize_link(link, parts)
}

} // verus!

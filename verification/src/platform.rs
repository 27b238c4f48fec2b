//! What the answers of the operating system mean: whether a probe shows that
//! the application may control the computer, which settings the user is to
//! open, and whether a URL scheme is registered.
//!
//! Asking the operating system is the caller's part; the functions here take
//! what it answered.

use crate::deep_link::ProtocolRegistrationStatus;
use crate::text::{
    append_chars, chars_are_blank, contains_chars, contains_text, from_chars, is_blank, to_chars,
};
use vstd::prelude::*;

verus! {

/// What one probe of the accessibility permission shows.
#[derive(Clone, Copy, Debug, PartialEq, Eq, Structural)]
pub enum ProbeVerdict {
    /// The probe went through: the permission is granted.
    Granted,
    /// The probe was turned down for want of the permission.
    Denied,
    /// The probe shows nothing: the next one is to be tried.
    Inconclusive,
}

/// How a probe ended: whether it could be run at all, whether it succeeded, and
/// what it wrote as its error.
#[derive(Debug)]
pub struct ProbeResult {
    pub ran: bool,
    pub succeeded: bool,
    pub error_output: String,
}

/// Whether the error of a probe speaks of a missing permission. The words
/// `Not authorized` count for the first probe only.
pub open spec fn speaks_of_denial(error: Seq<char>, first_probe: bool) -> bool {
    contains_text(error, "not allowed assistive access"@) || contains_text(
        error,
        "accessibility"@,
    ) || contains_text(error, "permission"@) || contains_text(error, "1002"@) || (first_probe
        && contains_text(error, "Not authorized"@))
}

/// What a probe shows: the permission is granted where the probe ran and
/// succeeded, denied where it ran, failed and its error speaks of it, and
/// nothing else is shown.
pub open spec fn verdict_of(
    first_probe: bool,
    ran: bool,
    succeeded: bool,
    error: Seq<char>,
) -> ProbeVerdict {
    if ran && succeeded {
        ProbeVerdict::Granted
    } else if ran && speaks_of_denial(error, first_probe) {
        ProbeVerdict::Denied
    } else {
        ProbeVerdict::Inconclusive
    }
}

/// Whether the error of a failed permission check asks for a restart of the
/// application.
pub open spec fn asks_for_restart(error: Seq<char>) -> bool {
    contains_text(error, "restart"@) || contains_text(error, "Unable to verify"@)
}

/// Whether the words occur in the text.
fn holds(text: &Vec<char>, words: &str) -> (r: bool)
    ensures
        r == contains_text(text@, words@),
{
    contains_chars(text, &to_chars(words))
}

/// What a probe of the accessibility permission shows.
pub fn judge_probe(first_probe: bool, result: &ProbeResult) -> (verdict: ProbeVerdict)
    ensures
        verdict == verdict_of(first_probe, result.ran, result.succeeded, result.error_output@),
{
    if !result.ran {
        return ProbeVerdict::Inconclusive;
    }
    if result.succeeded {
        return ProbeVerdict::Granted;
    }
    let error = to_chars(result.error_output.as_str());
    if holds(&error, "not allowed assistive access") || holds(&error, "accessibility") || holds(
        &error,
        "permission",
    ) || holds(&error, "1002") || (first_probe && holds(&error, "Not authorized")) {
        ProbeVerdict::Denied
    } else {
        ProbeVerdict::Inconclusive
    }
}

/// Whether the error of a failed permission check asks for a restart of the
/// application.
pub fn needs_restart(error: &str) -> (r: bool)
    ensures
        r == asks_for_restart(error@),
{
    let chars = to_chars(error);
    holds(&chars, "restart") || holds(&chars, "Unable to verify")
}

/// A decimal digit.
pub open spec fn is_digit(c: char) -> bool {
    '0' <= c && c <= '9'
}

/// The number that decimal digits stand for.
pub open spec fn digits_value(s: Seq<char>) -> nat
    decreases s.len(),
{
    if s.len() == 0 {
        0
    } else {
        digits_value(s.drop_last()) * 10 + ((s.last() as u32) - ('0' as u32)) as nat
    }
}

/// A text without the plus sign that it may begin with.
pub open spec fn without_plus(s: Seq<char>) -> Seq<char> {
    if s.len() > 0 && s[0] == '+' {
        s.skip(1)
    } else {
        s
    }
}

/// Whether a text is made of decimal digits only.
pub open spec fn all_digits(s: Seq<char>) -> bool {
    forall|i: int| 0 <= i < s.len() ==> is_digit(#[trigger] s[i])
}

/// The number that a text stands for: the text is made of decimal digits, at
/// least one, with or without a plus sign before them, and the number is less
/// than 2 to the power of 32. Any other text stands for no number.
pub open spec fn number_of(s: Seq<char>) -> Option<u32> {
    let digits = without_plus(s);
    if digits.len() > 0 && all_digits(digits) && digits_value(digits) <= u32::MAX {
        Some(digits_value(digits) as u32)
    } else {
        None
    }
}

/// The number of characters before the first dot; the length of the text where
/// it has none.
pub open spec fn first_dot(s: Seq<char>) -> nat
    decreases s.len(),
{
    if s.len() == 0 || s[0] == '.' {
        0
    } else {
        1 + first_dot(s.skip(1))
    }
}

/// The major number of a version: the number before its first dot.
pub open spec fn major_version(version: Seq<char>) -> Option<u32> {
    number_of(version.take(first_dot(version) as int))
}

/// The number that digits stand for grows with every digit.
pub proof fn lemma_digits_value_grows(s: Seq<char>, k: int)
    requires
        0 <= k <= s.len(),
    ensures
        digits_value(s.take(k)) <= digits_value(s),
    decreases s.len(),
{
    if k == s.len() {
        assert(s.take(k) == s);
    } else {
        assert(s.drop_last().take(k) == s.take(k));
        lemma_digits_value_grows(s.drop_last(), k);
    }
}

/// The number that a text stands for, if it stands for one.
pub fn parse_number(s: &Vec<char>) -> (n: Option<u32>)
    ensures
        n == number_of(s@),
{
    let start: usize = if s.len() > 0 && s[0] == '+' {
        1
    } else {
        0
    };
    let ghost digits = without_plus(s@);
    assert(digits =~= s@.skip(start as int));
    if start == s.len() {
        return None;
    }
    let mut value: u64 = 0;
    let mut i: usize = start;
    assert(digits.take(0) =~= Seq::<char>::empty());
    while i < s.len()
        invariant
            start <= i <= s.len(),
            digits == s@.skip(start as int),
            digits == without_plus(s@),
            all_digits(digits.take(i - start)),
            value == digits_value(digits.take(i - start)),
            value <= u32::MAX,
        decreases s.len() - i,
    {
        let c = s[i];
        assert(digits[i - start] == c);
        if !('0' <= c && c <= '9') {
            assert(!is_digit(digits[i - start]));
            return None;
        }
        let d: u64 = (c as u32 - '0' as u32) as u64;
        let ghost longer = digits.take(i - start + 1);
        assert(longer.drop_last() == digits.take(i - start));
        assert(longer.last() == c);
        assert forall|j: int| 0 <= j < longer.len() implies is_digit(#[trigger] longer[j]) by {
            if j < i - start {
                assert(longer[j] == digits.take(i - start)[j]);
            }
        }
        value = value * 10 + d;
        if value > 0xffff_ffff {
            proof {
                lemma_digits_value_grows(digits, i - start + 1);
            }
            return None;
        }
        i += 1;
    }
    assert(digits.take(digits.len() as int) == digits);
    Some(value as u32)
}

/// The major number of a version, if it has one.
pub fn parse_major_version(version: &str) -> (major: Option<u32>)
    ensures
        major == major_version(version@),
{
    let chars = to_chars(version);
    let mut head: Vec<char> = Vec::new();
    let mut i: usize = 0;
    assert(chars@.skip(0) == chars@);
    while i < chars.len() && chars[i] != '.'
        invariant
            i <= chars.len(),
            head@ == chars@.take(i as int),
            i + first_dot(chars@.skip(i as int)) == first_dot(chars@),
        decreases chars.len() - i,
    {
        assert(chars@.skip(i as int).skip(1) == chars@.skip(i + 1));
        head.push(chars[i]);
        assert(head@ =~= chars@.take(i + 1));
        i += 1;
    }
    parse_number(&head)
}

/// Where the accessibility settings are found on the newer systems.
pub open spec fn new_settings_hint() -> Seq<char> {
    "Please go to System Settings > Privacy & Security > Accessibility and add Clipify to the list of allowed applications."@
}

/// Where the accessibility settings are found on the older systems.
pub open spec fn old_settings_hint() -> Seq<char> {
    "Please go to System Preferences > Security & Privacy > Privacy > Accessibility and add Clipify to the list of allowed applications."@
}

/// Where the accessibility settings are found on either kind of system.
pub open spec fn either_settings_hint() -> Seq<char> {
    "Please go to System Settings > Privacy & Security > Accessibility (macOS 13+) or System Preferences > Security & Privacy > Privacy > Accessibility (macOS 12 and earlier) and add Clipify to the list of allowed applications."@
}

/// The hint for a system of the given version, where it is known: from major
/// number 13 on the settings are found in the new place, before that in the
/// old one, and where the version or its major number is not known, both
/// places are named.
pub open spec fn settings_hint(version: Option<Seq<char>>) -> Seq<char> {
    match version {
        Some(v) => match major_version(v) {
            Some(major) => if major >= 13 {
                new_settings_hint()
            } else {
                old_settings_hint()
            },
            None => either_settings_hint(),
        },
        None => either_settings_hint(),
    }
}

/// Tells the user where to grant the accessibility permission, given the
/// version of the system where it is known.
pub fn accessibility_instructions(version: Option<&str>) -> (hint: String)
    ensures
        hint@ == settings_hint(
            match version {
                Some(v) => Some(v@),
                None => None,
            },
        ),
{
    let major = match version {
        Some(v) => parse_major_version(v),
        None => None,
    };
    match major {
        Some(m) => if m >= 13 {
            "Please go to System Settings > Privacy & Security > Accessibility and add Clipify to the list of allowed applications.".to_owned()
        } else {
            "Please go to System Preferences > Security & Privacy > Privacy > Accessibility and add Clipify to the list of allowed applications.".to_owned()
        },
        None => "Please go to System Settings > Privacy & Security > Accessibility (macOS 13+) or System Preferences > Security & Privacy > Privacy > Accessibility (macOS 12 and earlier) and add Clipify to the list of allowed applications.".to_owned(),
    }
}

/// The line by which the launch services of macOS list a URL scheme.
pub open spec fn handler_line(scheme: Seq<char>) -> Seq<char> {
    "LSHandlerURLScheme = \""@ + scheme + "\";"@
}

/// Whether the handlers that macOS lists hold the scheme.
pub fn listed_among_handlers(listing: &str, scheme: &str) -> (r: bool)
    ensures
        r == contains_text(listing@, handler_line(scheme@)),
{
    let mut line = to_chars("LSHandlerURLScheme = \"");
    append_chars(&mut line, &to_chars(scheme));
    append_chars(&mut line, &to_chars("\";"));
    contains_chars(&to_chars(listing), &line)
}

/// Whether the answer of `xdg-mime` names an application: it is not blank and
/// does not say that there is none.
pub fn names_default_application(answer: &str) -> (r: bool)
    ensures
        r == (!is_blank(answer@) && !contains_text(answer@, "No default application"@)),
{
    let chars = to_chars(answer);
    !chars_are_blank(&chars) && !holds(&chars, "No default application")
}

/// What is to be said of a scheme whose registration in the Windows registry is
/// not complete.
pub open spec fn partial_registration(url_protocol: bool, command_handler: bool) -> Seq<char> {
    "Protocol partially registered - URL Protocol: "@ + truth(url_protocol)
        + ", Command Handler: "@ + truth(command_handler)
}

/// `true` or `false`, written out.
pub open spec fn truth(b: bool) -> Seq<char> {
    if b {
        "true"@
    } else {
        "false"@
    }
}

/// The registration of a scheme as the Windows registry shows it: what is said
/// of it and whether it is complete. A scheme is registered where its key is
/// found with both the URL protocol value and a command handler.
pub open spec fn registry_finding(key_found: bool, url_protocol: bool, command_handler: bool) -> (
    bool,
    Option<Seq<char>>,
) {
    if !key_found {
        (false, Some("Protocol key not found in registry"@))
    } else if url_protocol && command_handler {
        (true, None)
    } else {
        (false, Some(partial_registration(url_protocol, command_handler)))
    }
}

/// The status of a scheme as the Windows registry shows it.
pub fn registry_status(
    scheme: &str,
    key_found: bool,
    url_protocol: bool,
    command_handler: bool,
) -> (status: ProtocolRegistrationStatus)
    ensures
        status.scheme@ == scheme@,
        (
            status.is_registered,
            match status.error {
                Some(e) => Some(e@),
                None => None,
            },
        ) == registry_finding(key_found, url_protocol, command_handler),
{
    let scheme = scheme.to_owned();
    if !key_found {
        return ProtocolRegistrationStatus {
            scheme,
            is_registered: false,
            error: Some("Protocol key not found in registry".to_owned()),
        };
    }
    if url_protocol && command_handler {
        return ProtocolRegistrationStatus { scheme, is_registered: true, error: None };
    }
    let mut words = to_chars("Protocol partially registered - URL Protocol: ");
    append_chars(&mut words, &to_chars(if url_protocol { "true" } else { "false" }));
    append_chars(&mut words, &to_chars(", Command Handler: "));
    append_chars(&mut words, &to_chars(if command_handler { "true" } else { "false" }));
    ProtocolRegistrationStatus { scheme, is_registered: false, error: Some(from_chars(&words)) }
}

/// The status of a scheme of which the operating system told whether it is
/// registered.
pub fn plain_status(scheme: &str, is_registered: bool) -> (status: ProtocolRegistrationStatus)
    ensures
        status.scheme@ == scheme@,
        status.is_registered == is_registered,
        status.error is None,
{
    ProtocolRegistrationStatus { scheme: scheme.to_owned(), is_registered, error: None }
}

/// The status of a scheme of which the operating system could not be asked.
pub fn failed_status(scheme: &str, error: String) -> (status: ProtocolRegistrationStatus)
    ensures
        status.scheme@ == scheme@,
        !status.is_registered,
        status.error is Some && status.error->0@ == error@,
{
    ProtocolRegistrationStatus { scheme: scheme.to_owned(), is_registered: false, error: Some(error) }
}

} // verus!

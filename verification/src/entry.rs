//! Clipboard entries: what is recorded of one captured text.

use crate::classify::{
    classify, classify_chars, count_lines, detect_formatting, has_formatting, kind_name,
    lemma_shortened_fits, line_count, preview_of, shorten, ContentType,
};
use crate::text::{contains_chars, contains_text, from_chars, lowercase, str_to_lowercase, to_chars};
use vstd::prelude::*;

verus! {

/// A point in time: whole seconds since the start of 1970 (UTC) and the
/// nanoseconds into that second.
#[derive(Clone, Copy, Debug, PartialEq, Eq, Structural)]
pub struct Timestamp {
    pub secs: i64,
    pub nanos: u32,
}

/// One recorded clipboard text with its description.
#[derive(Debug)]
pub struct ClipboardEntry {
    pub id: String,
    pub content: String,
    pub original_content: String,
    pub is_cleaned: bool,
    pub timestamp: Timestamp,
    pub char_count: usize,
    pub line_count: usize,
    pub has_formatting: bool,
    pub content_type: ContentType,
    pub preview: String,
}

/// The mathematical value of an entry.
pub struct EntryView {
    pub id: Seq<char>,
    pub content: Seq<char>,
    pub original_content: Seq<char>,
    pub is_cleaned: bool,
    pub timestamp: Timestamp,
    pub char_count: nat,
    pub line_count: nat,
    pub has_formatting: bool,
    pub content_type: ContentType,
    pub preview: Seq<char>,
}

impl View for ClipboardEntry {
    type V = EntryView;

    open spec fn view(&self) -> EntryView {
        EntryView {
            id: self.id@,
            content: self.content@,
            original_content: self.original_content@,
            is_cleaned: self.is_cleaned,
            timestamp: self.timestamp,
            char_count: self.char_count as nat,
            line_count: self.line_count as nat,
            has_formatting: self.has_formatting,
            content_type: self.content_type,
            preview: self.preview@,
        }
    }
}

/// A digit of lowercase hexadecimal.
pub open spec fn is_lower_hex(c: char) -> bool {
    ('0' <= c && c <= '9') || ('a' <= c && c <= 'f')
}

/// The text form of a random (version 4) UUID: 36 characters, hyphens after the
/// 8th, 12th, 16th and 20th digit, lowercase hexadecimal digits elsewhere, of
/// which the 13th is `4` and the 17th one of `8`, `9`, `a`, `b`.
pub open spec fn is_uuid_text(s: Seq<char>) -> bool {
    &&& s.len() == 36
    &&& forall|i: int|
        0 <= i < 36 ==> if i == 8 || i == 13 || i == 18 || i == 23 {
            #[trigger] s[i] == '-'
        } else {
            is_lower_hex(s[i])
        }
    &&& s[14] == '4'
    &&& (s[19] == '8' || s[19] == '9' || s[19] == 'a' || s[19] == 'b')
}

/// Draws a random identifier: `uuid::Uuid::new_v4`, written out by its `Display`
/// impl. Which identifier comes is left open; its form is the hyphenated
/// lowercase one, with the version and variant digits that `new_v4` sets.
/// `new_v4` panics where the operating system gives it no random bytes.
#[verifier::external_body]
fn random_id() -> (id: String)
    ensures
        is_uuid_text(id@),
{
    uuid::Uuid::new_v4().to_string()
}

/// Reads the clock: `chrono::Utc::now`, taken apart by `DateTime::timestamp` and
/// `DateTime::timestamp_subsec_nanos`. Which time comes is left open; `Utc::now`
/// builds it from a time since the start of 1970, so the seconds are not negative
/// and the nanoseconds stay below one second. `Utc::now` panics where the system
/// clock stands before 1970.
#[verifier::external_body]
pub(crate) fn current_time() -> (t: Timestamp)
    ensures
        t.secs >= 0,
        t.nanos < 1_000_000_000,
{
    let now = chrono::Utc::now();
    Timestamp { secs: now.timestamp(), nanos: now.timestamp_subsec_nanos() }
}

/// The milliseconds from the start of 1970 to a point in time, as far as 64
/// bits hold them: beyond that, the largest or the smallest number that they
/// hold.
pub open spec fn millis_of(t: Timestamp) -> int {
    let exact = t.secs * 1000 + t.nanos / 1_000_000;
    if exact > i64::MAX {
        i64::MAX as int
    } else if exact < i64::MIN {
        i64::MIN as int
    } else {
        exact
    }
}

impl Timestamp {
    /// The milliseconds from the start of 1970 to this point in time.
    pub fn millis(&self) -> (m: i64)
        ensures
            m == millis_of(*self),
    {
        let exact: i128 = (self.secs as i128) * 1000 + ((self.nanos / 1_000_000) as i128);
        if exact > i64::MAX as i128 {
            i64::MAX
        } else if exact < i64::MIN as i128 {
            i64::MIN
        } else {
            exact as i64
        }
    }
}

/// The entry that records `content` under the given identifier and time. The
/// text before cleaning is `original`, or the content itself where none is given.
pub open spec fn entry_for(
    id: Seq<char>,
    timestamp: Timestamp,
    content: Seq<char>,
    is_cleaned: bool,
    original: Option<Seq<char>>,
) -> EntryView {
    EntryView {
        id,
        content,
        original_content: match original {
            Some(o) => o,
            None => content,
        },
        is_cleaned,
        timestamp,
        char_count: content.len(),
        line_count: line_count(content),
        has_formatting: has_formatting(content),
        content_type: classify(content),
        preview: preview_of(content),
    }
}

/// The view of an optional string.
pub open spec fn option_view(o: Option<String>) -> Option<Seq<char>> {
    match o {
        Some(s) => Some(s@),
        None => None,
    }
}

/// Whether an entry answers a search: the query, in lowercase, occurs in the
/// lowercase content or in the name of the entry's kind.
pub open spec fn entry_matches(e: EntryView, query: Seq<char>) -> bool {
    contains_text(lowercase(e.content), lowercase(query)) || contains_text(
        kind_name(e.content_type),
        lowercase(query),
    )
}

impl Clone for ClipboardEntry {
    /// A copy of the entry, equal to it in every field.
    fn clone(&self) -> (copy: Self)
        ensures
            copy@ == self@,
    {
        ClipboardEntry {
            id: self.id.clone(),
            content: self.content.clone(),
            original_content: self.original_content.clone(),
            is_cleaned: self.is_cleaned,
            timestamp: self.timestamp,
            char_count: self.char_count,
            line_count: self.line_count,
            has_formatting: self.has_formatting,
            content_type: self.content_type,
            preview: self.preview.clone(),
        }
    }
}

impl ClipboardEntry {
    /// Records `content` under a fresh random identifier and the current time.
    pub fn new(content: String, is_cleaned: bool, original_content: Option<String>) -> (entry:
        Self)
        ensures
            entry@ == entry_for(
                entry@.id,
                entry@.timestamp,
                content@,
                is_cleaned,
                option_view(original_content),
            ),
            is_uuid_text(entry@.id),
            entry@.timestamp.secs >= 0,
            entry@.timestamp.nanos < 1_000_000_000,
    {
        let id = random_id();
        let timestamp = current_time();
        ClipboardEntry::with_identity(id, timestamp, content, is_cleaned, original_content)
    }

    /// Records `content` under the given identifier and time.
    pub fn with_identity(
        id: String,
        timestamp: Timestamp,
        content: String,
        is_cleaned: bool,
        original_content: Option<String>,
    ) -> (entry: Self)
        ensures
            entry@ == entry_for(
                id@,
                timestamp,
                content@,
                is_cleaned,
                option_view(original_content),
            ),
    {
        let chars = to_chars(content.as_str());
        let char_count = chars.len();
        let line_count = count_lines(&chars);
        let has_formatting = detect_formatting(&chars);
        let content_type = classify_chars(&chars);
        let preview = from_chars(&shorten(&chars, 100));
        let original_content = match original_content {
            Some(o) => o,
            None => content.clone(),
        };
        ClipboardEntry {
            id,
            content,
            original_content,
            is_cleaned,
            timestamp,
            char_count,
            line_count,
            has_formatting,
            content_type,
            preview,
        }
    }

    /// Whether the entry answers a search for `query`, whatever the case of the
    /// letters: the query is sought in the content and in the name of the kind.
    pub fn matches_search(&self, query: &str) -> (r: bool)
        ensures
            r == entry_matches(self@, query@),
    {
        let query_lower = to_chars(str_to_lowercase(query).as_str());
        let content_lower = to_chars(str_to_lowercase(self.content.as_str()).as_str());
        if contains_chars(&content_lower, &query_lower) {
            return true;
        }
        let name = to_chars(self.content_type.name());
        contains_chars(&name, &query_lower)
    }
}

/// What an entry keeps true of itself: its counts, its kind and its preview are
/// those of its content, and its preview is no longer than a hundred
/// characters.
pub open spec fn is_consistent(e: EntryView) -> bool {
    &&& e.char_count == e.content.len()
    &&& e.line_count == line_count(e.content)
    &&& e.has_formatting == has_formatting(e.content)
    &&& e.content_type == classify(e.content)
    &&& e.preview == preview_of(e.content)
    &&& e.preview.len() <= 100
}

/// Every entry that is made for a text is consistent.
pub proof fn lemma_entry_is_consistent(
    id: Seq<char>,
    timestamp: Timestamp,
    content: Seq<char>,
    is_cleaned: bool,
    original: Option<Seq<char>>,
)
    ensures
        is_consistent(entry_for(id, timestamp, content, is_cleaned, original)),
{
    lemma_shortened_fits(content, 100);
}

} // verus!

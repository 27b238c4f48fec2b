//! The description of a text: its kind, its counts of characters and lines,
//! whether it holds formatting, and its preview.

use crate::text::{
    char_is_whitespace, contains_char, is_whitespace, starts_with, str_eq, to_chars,
};
use vstd::prelude::*;

verus! {

/// The kind of text an entry holds.
#[derive(Clone, Copy, Debug, PartialEq, Eq, Structural)]
pub enum ContentType {
    Text,
    Url,
    Email,
    Phone,
}

/// What `char::is_numeric` reports for a character: whether Unicode puts it in one
/// of its number categories.
pub uninterp spec fn unicode_numeric(c: char) -> bool;

/// Calls `char::is_numeric`. Nothing is claimed of the answer but that it is the
/// one named by [`unicode_numeric`].
#[verifier::external_body]
fn char_is_numeric(c: char) -> (r: bool)
    ensures
        r == unicode_numeric(c),
{
    c.is_numeric()
}

/// How often a character occurs in a text.
pub open spec fn count_char(s: Seq<char>, c: char) -> nat
    decreases s.len(),
{
    if s.len() == 0 {
        0
    } else {
        count_char(s.drop_last(), c) + if s.last() == c {
            1nat
        } else {
            0nat
        }
    }
}

/// The number of lines of a text: every line feed ends a line, and what follows
/// the last line feed is one more line unless it is empty.
pub open spec fn line_count(s: Seq<char>) -> nat {
    count_char(s, '\n') + if s.len() > 0 && s.last() != '\n' {
        1nat
    } else {
        0nat
    }
}

/// Whether a character is formatting: a line feed, a tab, or any whitespace other
/// than the plain space.
pub open spec fn is_formatting_char(c: char) -> bool {
    c == '\n' || c == '\t' || (is_whitespace(c) && c != ' ')
}

/// Whether a text holds a formatting character.
pub open spec fn has_formatting(s: Seq<char>) -> bool {
    exists|i: int| 0 <= i < s.len() && is_formatting_char(#[trigger] s[i])
}

/// The characters `http://`.
pub open spec fn http_prefix() -> Seq<char> {
    seq!['h', 't', 't', 'p', ':', '/', '/']
}

/// The characters `https://`.
pub open spec fn https_prefix() -> Seq<char> {
    seq!['h', 't', 't', 'p', 's', ':', '/', '/']
}

/// A character that may stand in a phone number: numeric, whitespace, or one of
/// `-+().`.
pub open spec fn is_phone_char(c: char) -> bool {
    unicode_numeric(c) || is_whitespace(c) || c == '-' || c == '+' || c == '(' || c == ')' || c
        == '.'
}

/// The kind of a text. The rules are tried in this order and the first that
/// holds decides: a text that begins with `http://` or `https://` is a URL; one
/// with an `@`, a `.` and no line feed is an e-mail address; one made of phone
/// characters only is a phone number; any other is plain text.
pub open spec fn classify(s: Seq<char>) -> ContentType {
    if http_prefix().is_prefix_of(s) || https_prefix().is_prefix_of(s) {
        ContentType::Url
    } else if s.contains('@') && s.contains('.') && !s.contains('\n') {
        ContentType::Email
    } else if forall|i: int| 0 <= i < s.len() ==> is_phone_char(#[trigger] s[i]) {
        ContentType::Phone
    } else {
        ContentType::Text
    }
}

/// The number of bytes that UTF-8 takes for a character.
pub open spec fn utf8_width(c: char) -> nat {
    if (c as u32) < 0x80 {
        1
    } else if (c as u32) < 0x800 {
        2
    } else if (c as u32) < 0x10000 {
        3
    } else {
        4
    }
}

/// The number of bytes that UTF-8 takes for a text.
pub open spec fn utf8_len(s: Seq<char>) -> nat
    decreases s.len(),
{
    if s.len() == 0 {
        0
    } else {
        utf8_len(s.drop_last()) + utf8_width(s.last())
    }
}

/// The number of leading characters of `s` that together take at most `budget`
/// bytes in UTF-8.
pub open spec fn fitting_chars(s: Seq<char>, budget: nat) -> nat
    decreases s.len(),
{
    if s.len() == 0 || utf8_width(s[0]) > budget {
        0
    } else {
        1 + fitting_chars(s.skip(1), (budget - utf8_width(s[0])) as nat)
    }
}

/// The three dots that end a shortened text.
pub open spec fn ellipsis() -> Seq<char> {
    seq!['.', '.', '.']
}

/// The bytes that are left for the text itself where three dots are to follow
/// it within `limit` bytes; none where the limit is below three.
pub open spec fn room_before_dots(limit: nat) -> nat {
    if limit >= 3 {
        (limit - 3) as nat
    } else {
        0
    }
}

/// A text shortened for display: where it takes more than `limit` bytes in UTF-8,
/// its longest beginning of whole characters within `limit - 3` bytes, followed
/// by three dots; else the text itself.
pub open spec fn shortened(s: Seq<char>, limit: nat) -> Seq<char> {
    if utf8_len(s) > limit {
        s.take(fitting_chars(s, room_before_dots(limit)) as int) + ellipsis()
    } else {
        s
    }
}

/// The preview of a text: the text shortened to 100 bytes.
pub open spec fn preview_of(s: Seq<char>) -> Seq<char> {
    shortened(s, 100)
}

/// The name of a kind of text, as it is shown and searched.
pub open spec fn kind_name(t: ContentType) -> Seq<char> {
    match t {
        ContentType::Text => seq!['t', 'e', 'x', 't'],
        ContentType::Url => seq!['u', 'r', 'l'],
        ContentType::Email => seq!['e', 'm', 'a', 'i', 'l'],
        ContentType::Phone => seq!['p', 'h', 'o', 'n', 'e'],
    }
}

impl ContentType {
    /// The name of the kind: `text`, `url`, `email` or `phone`.
    pub fn name(&self) -> (r: &'static str)
        ensures
            r@ == kind_name(*self),
    {
        proof {
            reveal_strlit("text");
            reveal_strlit("url");
            reveal_strlit("email");
            reveal_strlit("phone");
        }
        match self {
            ContentType::Text => {
                assert("text"@ =~= kind_name(ContentType::Text));
                "text"
            },
            ContentType::Url => {
                assert("url"@ =~= kind_name(ContentType::Url));
                "url"
            },
            ContentType::Email => {
                assert("email"@ =~= kind_name(ContentType::Email));
                "email"
            },
            ContentType::Phone => {
                assert("phone"@ =~= kind_name(ContentType::Phone));
                "phone"
            },
        }
    }
}

/// The kind with the given name, if it is the name of one.
pub open spec fn kind_named(name: Seq<char>) -> Option<ContentType> {
    if name == kind_name(ContentType::Text) {
        Some(ContentType::Text)
    } else if name == kind_name(ContentType::Url) {
        Some(ContentType::Url)
    } else if name == kind_name(ContentType::Email) {
        Some(ContentType::Email)
    } else if name == kind_name(ContentType::Phone) {
        Some(ContentType::Phone)
    } else {
        None
    }
}

/// The kind with the given name: `text`, `url`, `email` or `phone`.
pub fn kind_from_name(name: &str) -> (kind: Option<ContentType>)
    ensures
        kind == kind_named(name@),
{
    if str_eq(name, ContentType::Text.name()) {
        Some(ContentType::Text)
    } else if str_eq(name, ContentType::Url.name()) {
        Some(ContentType::Url)
    } else if str_eq(name, ContentType::Email.name()) {
        Some(ContentType::Email)
    } else if str_eq(name, ContentType::Phone.name()) {
        Some(ContentType::Phone)
    } else {
        None
    }
}

/// Every kind is the kind named by its name.
pub proof fn lemma_kind_name_round_trip(kind: ContentType)
    ensures
        kind_named(kind_name(kind)) == Some(kind),
{
    assert(kind_name(ContentType::Text)[0] == 't');
    assert(kind_name(ContentType::Url)[0] == 'u');
    assert(kind_name(ContentType::Email)[0] == 'e');
    assert(kind_name(ContentType::Phone)[0] == 'p');
}

/// A character occurs in a text no more often than the text has characters.
pub proof fn lemma_count_char_bound(s: Seq<char>, c: char)
    ensures
        count_char(s, c) <= s.len(),
    decreases s.len(),
{
    if s.len() > 0 {
        lemma_count_char_bound(s.drop_last(), c);
    }
}

/// The number of lines of a text.
pub fn count_lines(v: &Vec<char>) -> (n: usize)
    ensures
        n == line_count(v@),
{
    let len = v.len();
    let mut n: usize = 0;
    let mut i: usize = 0;
    while i < len
        invariant
            len == v.len(),
            i <= len,
            n <= i,
            n == count_char(v@.take(i as int), '\n'),
        decreases len - i,
    {
        assert(v@.take(i + 1).drop_last() == v@.take(i as int));
        if v[i] == '\n' {
            n += 1;
        }
        i += 1;
    }
    assert(v@.take(len as int) == v@);
    if len > 0 && v[len - 1] != '\n' {
        proof {
            lemma_count_char_bound(v@.drop_last(), '\n');
        }
        n += 1;
    }
    n
}

/// Whether a text holds a line feed, a tab or any whitespace but the plain space.
pub fn detect_formatting(v: &Vec<char>) -> (r: bool)
    ensures
        r == has_formatting(v@),
{
    let mut i: usize = 0;
    while i < v.len()
        invariant
            i <= v.len(),
            forall|j: int| 0 <= j < i ==> !is_formatting_char(#[trigger] v@[j]),
        decreases v.len() - i,
    {
        let c = v[i];
        if c == '\n' || c == '\t' || (char_is_whitespace(c) && c != ' ') {
            return true;
        }
        i += 1;
    }
    false
}

/// Whether a text is made of phone characters only.
fn all_phone_chars(v: &Vec<char>) -> (r: bool)
    ensures
        r == (forall|i: int| 0 <= i < v@.len() ==> is_phone_char(#[trigger] v@[i])),
{
    let mut i: usize = 0;
    while i < v.len()
        invariant
            i <= v.len(),
            forall|j: int| 0 <= j < i ==> is_phone_char(#[trigger] v@[j]),
        decreases v.len() - i,
    {
        let c = v[i];
        if !(char_is_numeric(c) || char_is_whitespace(c) || c == '-' || c == '+' || c == '('
            || c == ')' || c == '.') {
            return false;
        }
        i += 1;
    }
    true
}

/// The kind of a text.
pub fn classify_chars(v: &Vec<char>) -> (t: ContentType)
    ensures
        t == classify(v@),
{
    let http = to_chars("http://");
    let https = to_chars("https://");
    proof {
        reveal_strlit("http://");
        reveal_strlit("https://");
        assert(http@ =~= http_prefix());
        assert(https@ =~= https_prefix());
    }
    if starts_with(v, &http) || starts_with(v, &https) {
        ContentType::Url
    } else if contains_char(v, '@') && contains_char(v, '.') && !contains_char(v, '\n') {
        ContentType::Email
    } else if all_phone_chars(v) {
        ContentType::Phone
    } else {
        ContentType::Text
    }
}

/// The number of bytes that UTF-8 takes for a character.
fn utf8_width_of(c: char) -> (w: usize)
    ensures
        w == utf8_width(c),
        1 <= w <= 4,
{
    let u: u32 = c as u32;
    if u < 0x80 {
        1
    } else if u < 0x800 {
        2
    } else if u < 0x10000 {
        3
    } else {
        4
    }
}

/// A text takes at least as many bytes as any of its beginnings.
pub proof fn lemma_utf8_len_take(s: Seq<char>, k: int)
    requires
        0 <= k <= s.len(),
    ensures
        utf8_len(s.take(k)) <= utf8_len(s),
    decreases s.len(),
{
    if k == s.len() {
        assert(s.take(k) == s);
    } else {
        assert(s.drop_last().take(k) == s.take(k));
        lemma_utf8_len_take(s.drop_last(), k);
    }
}

/// Whether a text takes more than `limit` bytes in UTF-8.
pub fn exceeds_bytes(v: &Vec<char>, limit: usize) -> (r: bool)
    ensures
        r == (utf8_len(v@) > limit),
{
    let mut used: usize = 0;
    let mut i: usize = 0;
    while i < v.len()
        invariant
            i <= v.len(),
            used <= limit,
            used == utf8_len(v@.take(i as int)),
        decreases v.len() - i,
    {
        let w = utf8_width_of(v[i]);
        assert(v@.take(i + 1).drop_last() == v@.take(i as int));
        if w > limit - used {
            proof {
                lemma_utf8_len_take(v@, i + 1);
            }
            return true;
        }
        used += w;
        i += 1;
    }
    assert(v@.take(v@.len() as int) == v@);
    false
}

/// The number of leading characters that together take at most `budget` bytes.
fn count_fitting(v: &Vec<char>, budget: usize) -> (k: usize)
    ensures
        k == fitting_chars(v@, budget as nat),
        k <= v@.len(),
{
    let mut used: usize = 0;
    let mut k: usize = 0;
    assert(v@.skip(0) == v@);
    while k < v.len() && utf8_width_of(v[k]) <= budget - used
        invariant
            k <= v.len(),
            used <= budget,
            k + fitting_chars(v@.skip(k as int), (budget - used) as nat) == fitting_chars(
                v@,
                budget as nat,
            ),
        decreases v.len() - k,
    {
        assert(v@.skip(k as int).skip(1) == v@.skip(k + 1));
        used += utf8_width_of(v[k]);
        k += 1;
    }
    k
}

/// Shortens a text for display to at most `limit` bytes of UTF-8; with a limit
/// below three, to the three dots alone.
pub fn shorten(v: &Vec<char>, limit: usize) -> (out: Vec<char>)
    ensures
        out@ == shortened(v@, limit as nat),
{
    let mut out: Vec<char> = Vec::new();
    let long = exceeds_bytes(v, limit);
    let keep = if long {
        count_fitting(v, if limit >= 3 { limit - 3 } else { 0 })
    } else {
        v.len()
    };
    let mut i: usize = 0;
    while i < keep
        invariant
            i <= keep <= v.len(),
            out@ == v@.take(i as int),
        decreases keep - i,
    {
        out.push(v[i]);
        i += 1;
    }
    if long {
        out.push('.');
        out.push('.');
        out.push('.');
        assert(out@ =~= v@.take(keep as int) + ellipsis());
    } else {
        assert(v@.take(keep as int) == v@);
    }
    out
}

/// The bytes of two texts add up to the bytes of the one after the other.
pub proof fn lemma_utf8_len_concat(a: Seq<char>, b: Seq<char>)
    ensures
        utf8_len(a + b) == utf8_len(a) + utf8_len(b),
    decreases b.len(),
{
    if b.len() == 0 {
        assert(a + b =~= a);
    } else {
        assert((a + b).drop_last() =~= a + b.drop_last());
        assert((a + b).last() == b.last());
        lemma_utf8_len_concat(a, b.drop_last());
    }
}

/// A text takes at least one byte for each of its characters.
pub proof fn lemma_utf8_len_at_least_len(s: Seq<char>)
    ensures
        s.len() <= utf8_len(s),
    decreases s.len(),
{
    if s.len() > 0 {
        lemma_utf8_len_at_least_len(s.drop_last());
    }
}

/// The characters counted by `fitting_chars` fit the budget, and one more
/// character would not.
pub proof fn lemma_fitting_chars(s: Seq<char>, budget: nat)
    ensures
        fitting_chars(s, budget) <= s.len(),
        utf8_len(s.take(fitting_chars(s, budget) as int)) <= budget,
        fitting_chars(s, budget) < s.len() ==> utf8_len(
            s.take(fitting_chars(s, budget) as int + 1),
        ) > budget,
    decreases s.len(),
{
    if s.len() == 0 {
        assert(s.take(0) =~= Seq::<char>::empty());
    } else if utf8_width(s[0]) > budget {
        assert(s.take(0) =~= Seq::<char>::empty());
        assert(s.take(1) =~= seq![s[0]]);
        assert(seq![s[0]].drop_last() =~= Seq::<char>::empty());
        assert(utf8_len(Seq::<char>::empty()) == 0);
    } else {
        let rest = s.skip(1);
        let left = (budget - utf8_width(s[0])) as nat;
        let k = fitting_chars(rest, left) as int;
        lemma_fitting_chars(rest, left);
        assert(seq![s[0]].drop_last() =~= Seq::<char>::empty());
        assert(utf8_len(Seq::<char>::empty()) == 0);
        assert(utf8_len(seq![s[0]]) == utf8_width(s[0]));
        assert(s.take(k + 1) =~= seq![s[0]] + rest.take(k));
        lemma_utf8_len_concat(seq![s[0]], rest.take(k));
        if k < rest.len() {
            assert(s.take(k + 2) =~= seq![s[0]] + rest.take(k + 1));
            lemma_utf8_len_concat(seq![s[0]], rest.take(k + 1));
        }
    }
}

/// A shortened text fits its limit, in bytes and so in characters.
pub proof fn lemma_shortened_fits(s: Seq<char>, limit: nat)
    requires
        limit >= 3,
    ensures
        utf8_len(shortened(s, limit)) <= limit,
        shortened(s, limit).len() <= limit,
{
    let short = shortened(s, limit);
    if utf8_len(s) > limit {
        let kept = s.take(fitting_chars(s, room_before_dots(limit)) as int);
        lemma_fitting_chars(s, room_before_dots(limit));
        lemma_utf8_len_concat(kept, ellipsis());
        assert(ellipsis().drop_last() =~= seq!['.', '.']);
        assert(seq!['.', '.'].drop_last() =~= seq!['.']);
        assert(seq!['.'].drop_last() =~= Seq::<char>::empty());
        assert(utf8_len(Seq::<char>::empty()) == 0);
        assert(utf8_len(seq!['.']) == 1);
        assert(utf8_len(seq!['.', '.']) == 2);
        assert(utf8_len(ellipsis()) == 3);
    }
    lemma_utf8_len_at_least_len(short);
}

} // verus!

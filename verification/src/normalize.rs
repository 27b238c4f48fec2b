//! Whitespace normalisation of captured text.
//!
//! A text is cleaned in five steps, each a function of this module: line endings
//! are unified, runs of spaces and tabs are collapsed, every line is trimmed,
//! runs of line feeds are capped at two, and the whole is trimmed.

use crate::text::{chars_are_blank, from_chars, is_blank, to_chars, trim, trim_bounds};
use vstd::prelude::*;

verus! {

/// A space or a tab.
pub open spec fn is_space_or_tab(c: char) -> bool {
    c == ' ' || c == '\t'
}

/// Step one: every carriage return followed by a line feed gives way to that line
/// feed, and every other carriage return becomes a line feed.
pub open spec fn unify_line_endings(s: Seq<char>) -> Seq<char>
    decreases s.len(),
{
    if s.len() == 0 {
        s
    } else if s[0] == '\r' && s.len() > 1 && s[1] == '\n' {
        unify_line_endings(s.skip(1))
    } else {
        seq![if s[0] == '\r' { '\n' } else { s[0] }] + unify_line_endings(s.skip(1))
    }
}

/// The scan of step two over all characters but the last: a space or tab whose
/// successor is a space or tab is dropped, any other tab becomes a space, and
/// every other character stays.
pub open spec fn squeeze_blanks(s: Seq<char>) -> Seq<char>
    decreases s.len(),
{
    if s.len() <= 1 {
        Seq::empty()
    } else if is_space_or_tab(s[0]) && is_space_or_tab(s[1]) {
        squeeze_blanks(s.skip(1))
    } else {
        seq![if s[0] == '\t' { ' ' } else { s[0] }] + squeeze_blanks(s.skip(1))
    }
}

/// Step two: the scan of `unified`, followed by the last character of the text as
/// it was given, which is kept as it is.
pub open spec fn collapse_blanks(raw: Seq<char>, unified: Seq<char>) -> Seq<char> {
    squeeze_blanks(unified) + if raw.len() > 0 {
        seq![raw.last()]
    } else {
        Seq::empty()
    }
}

/// The number of characters before the first line feed; the length of the text
/// where it has none.
pub open spec fn first_newline(s: Seq<char>) -> nat
    decreases s.len(),
{
    if s.len() == 0 || s[0] == '\n' {
        0
    } else {
        1 + first_newline(s.skip(1))
    }
}

/// Step three: every line, that is every stretch between line feeds, is trimmed;
/// the line feeds stay.
pub open spec fn trim_lines(s: Seq<char>) -> Seq<char>
    decreases s.len(),
{
    let k = first_newline(s) as int;
    if k >= s.len() {
        trim(s)
    } else {
        trim(s.take(k)) + seq!['\n'] + trim_lines(s.skip(k + 1))
    }
}

/// Step four: of every run of three or more line feeds only the last two stay.
pub open spec fn cap_newlines(s: Seq<char>) -> Seq<char>
    decreases s.len(),
{
    if s.len() == 0 {
        s
    } else if s.len() >= 3 && s[0] == '\n' && s[1] == '\n' && s[2] == '\n' {
        cap_newlines(s.skip(1))
    } else {
        seq![s[0]] + cap_newlines(s.skip(1))
    }
}

/// The cleaned form of a text: empty for a blank text, and else the result of the
/// five steps, the last being a trim of the whole.
pub open spec fn normalized(raw: Seq<char>) -> Seq<char> {
    if is_blank(raw) {
        Seq::empty()
    } else {
        trim(cap_newlines(trim_lines(collapse_blanks(raw, unify_line_endings(raw)))))
    }
}

/// `first_newline` is the one index up to which there is no line feed and at which
/// the text ends or has one.
pub proof fn lemma_first_newline(s: Seq<char>, k: int)
    requires
        0 <= k <= s.len(),
        forall|j: int| 0 <= j < k ==> s[j] != '\n',
        k == s.len() || s[k] == '\n',
    ensures
        first_newline(s) == k,
    decreases s.len(),
{
    if k > 0 {
        lemma_first_newline(s.skip(1), k - 1);
    }
}

/// Step one of cleaning.
fn unify_line_endings_exec(v: &Vec<char>) -> (out: Vec<char>)
    ensures
        out@ == unify_line_endings(v@),
{
    let n = v.len();
    let mut out: Vec<char> = Vec::new();
    let mut i: usize = 0;
    assert(v@.skip(0) == v@);
    assert(out@ + unify_line_endings(v@) == unify_line_endings(v@));
    while i < n
        invariant
            n == v.len(),
            i <= n,
            out@ + unify_line_endings(v@.skip(i as int)) == unify_line_endings(v@),
        decreases n - i,
    {
        let ghost rest = v@.skip(i as int);
        let ghost before = out@;
        assert(rest.skip(1) == v@.skip(i + 1));
        let c = v[i];
        if c == '\r' && i + 1 < n && v[i + 1] == '\n' {
        } else {
            let d = if c == '\r' { '\n' } else { c };
            out.push(d);
            assert(out@ + unify_line_endings(rest.skip(1)) == before + (seq![d]
                + unify_line_endings(rest.skip(1))));
        }
        i += 1;
    }
    assert(v@.skip(n as int).len() == 0);
    assert(out@ + Seq::<char>::empty() == out@);
    out
}

/// Step two of cleaning.
fn collapse_blanks_exec(raw: &Vec<char>, unified: &Vec<char>) -> (out: Vec<char>)
    ensures
        out@ == collapse_blanks(raw@, unified@),
{
    let n = unified.len();
    let mut out: Vec<char> = Vec::new();
    let mut i: usize = 0;
    assert(unified@.skip(0) == unified@);
    assert(out@ + squeeze_blanks(unified@) == squeeze_blanks(unified@));
    while n - i > 1
        invariant
            n == unified.len(),
            i <= n,
            out@ + squeeze_blanks(unified@.skip(i as int)) == squeeze_blanks(unified@),
        decreases n - i,
    {
        let ghost rest = unified@.skip(i as int);
        let ghost before = out@;
        assert(rest.skip(1) == unified@.skip(i + 1));
        let c = unified[i];
        let next = unified[i + 1];
        if (c == ' ' || c == '\t') && (next == ' ' || next == '\t') {
        } else {
            let d = if c == '\t' { ' ' } else { c };
            out.push(d);
            assert(out@ + squeeze_blanks(rest.skip(1)) == before + (seq![d] + squeeze_blanks(
                rest.skip(1),
            )));
        }
        i += 1;
    }
    assert(unified@.skip(i as int).len() <= 1);
    assert(out@ + Seq::<char>::empty() == out@);
    if raw.len() > 0 {
        out.push(raw[raw.len() - 1]);
        assert(out@ == squeeze_blanks(unified@) + seq![raw@.last()]);
    } else {
        assert(out@ == squeeze_blanks(unified@) + Seq::<char>::empty());
    }
    out
}

/// Step three of cleaning.
fn trim_lines_exec(v: &Vec<char>) -> (out: Vec<char>)
    ensures
        out@ == trim_lines(v@),
{
    let n = v.len();
    let mut out: Vec<char> = Vec::new();
    let mut start: usize = 0;
    assert(v@.skip(0) == v@);
    assert(out@ + trim_lines(v@) == trim_lines(v@));
    loop
        invariant_except_break
            n == v.len(),
            start <= n,
            out@ + trim_lines(v@.skip(start as int)) == trim_lines(v@),
        ensures
            out@ == trim_lines(v@),
        decreases n - start,
    {
        let ghost rest = v@.skip(start as int);
        let ghost before = out@;
        let mut end: usize = start;
        while end < n && v[end] != '\n'
            invariant
                start <= end <= n,
                n == v.len(),
                forall|j: int| start <= j < end ==> v@[j] != '\n',
            decreases n - end,
        {
            end += 1;
        }
        proof {
            lemma_first_newline(rest, end - start);
            assert(rest.take(end - start) == v@.subrange(start as int, end as int));
            assert(end == n ==> rest == v@.subrange(start as int, end as int));
        }
        let (a, b) = trim_bounds(v, start, end);
        let mut j: usize = a;
        while j < b
            invariant
                a <= j <= b <= n,
                n == v.len(),
                out@ == before + v@.subrange(a as int, j as int),
            decreases b - j,
        {
            out.push(v[j]);
            assert(out@ == before + v@.subrange(a as int, j + 1));
            j += 1;
        }
        if end == n {
            assert(out@ + Seq::<char>::empty() == out@);
            break ;
        }
        out.push('\n');
        proof {
            let line = trim(rest.take(end - start));
            let tail = trim_lines(rest.skip(end - start + 1));
            assert(rest.skip(end - start + 1) == v@.skip(end + 1));
            assert(out@ + tail == before + (line + seq!['\n'] + tail));
        }
        start = end + 1;
    }
    out
}

/// Step four of cleaning.
fn cap_newlines_exec(v: &Vec<char>) -> (out: Vec<char>)
    ensures
        out@ == cap_newlines(v@),
{
    let n = v.len();
    let mut out: Vec<char> = Vec::new();
    let mut i: usize = 0;
    assert(v@.skip(0) == v@);
    assert(out@ + cap_newlines(v@) == cap_newlines(v@));
    while i < n
        invariant
            n == v.len(),
            i <= n,
            out@ + cap_newlines(v@.skip(i as int)) == cap_newlines(v@),
        decreases n - i,
    {
        let ghost rest = v@.skip(i as int);
        let ghost before = out@;
        assert(rest.skip(1) == v@.skip(i + 1));
        let c = v[i];
        if c == '\n' && n - i >= 3 && v[i + 1] == '\n' && v[i + 2] == '\n' {
        } else {
            out.push(c);
            assert(out@ + cap_newlines(rest.skip(1)) == before + (seq![c] + cap_newlines(
                rest.skip(1),
            )));
        }
        i += 1;
    }
    assert(v@.skip(n as int).len() == 0);
    assert(out@ + Seq::<char>::empty() == out@);
    out
}

/// Cleans a text: unifies its line endings, collapses runs of spaces and tabs,
/// trims every line, caps runs of line feeds at two and trims the whole. A blank
/// text gives the empty string.
pub fn cleanup_text(text: &str) -> (cleaned: String)
    ensures
        cleaned@ == normalized(text@),
{
    let raw = to_chars(text);
    if chars_are_blank(&raw) {
        return String::new();
    }
    let unified = unify_line_endings_exec(&raw);
    let collapsed = collapse_blanks_exec(&raw, &unified);
    let lines = trim_lines_exec(&collapsed);
    let capped = cap_newlines_exec(&lines);
    let (a, b) = trim_bounds(&capped, 0, capped.len());
    let mut out: Vec<char> = Vec::new();
    let mut j: usize = a;
    while j < b
        invariant
            a <= j <= b <= capped.len(),
            out@ == capped@.subrange(a as int, j as int),
        decreases b - j,
    {
        out.push(capped[j]);
        j += 1;
    }
    assert(capped@.subrange(0, capped.len() as int) == capped@);
    from_chars(&out)
}

} // verus!

//! What is true of every cleaned text, and the laws of cleaning that follow
//! from it: cleaning a cleaned text changes nothing, no cleaned text holds three
//! line feeds in a row, and only a blank text is cleaned away altogether.

use crate::normalize::{
    cap_newlines, collapse_blanks, first_newline, is_space_or_tab, normalized, squeeze_blanks,
    trim_lines, unify_line_endings,
};
use crate::text::{is_blank, is_whitespace, trim, trim_end, trim_start};
use vstd::prelude::*;

verus! {

/// Whitespace within a line: any whitespace but the line feed.
pub open spec fn is_inline_space(c: char) -> bool {
    is_whitespace(c) && c != '\n'
}

/// No carriage return and no tab among the characters before index `upto`.
pub open spec fn plain_before(s: Seq<char>, upto: int) -> bool {
    forall|i: int| 0 <= i < upto && i < s.len() ==> #[trigger] s[i] != '\r' && s[i] != '\t'
}

/// No two neighbours are both a space or a tab.
pub open spec fn no_double_blank(s: Seq<char>) -> bool {
    forall|i: int|
        0 <= i < s.len() - 1 ==> !(is_space_or_tab(#[trigger] s[i]) && is_space_or_tab(s[i + 1]))
}

/// No line begins or ends with whitespace, as far as neighbours show it: no
/// line feed stands next to whitespace of another kind.
pub open spec fn no_blank_at_line_feed(s: Seq<char>) -> bool {
    forall|i: int|
        0 <= i < s.len() - 1 ==> !(is_inline_space(#[trigger] s[i]) && s[i + 1] == '\n') && !(s[i]
            == '\n' && is_inline_space(s[i + 1]))
}

/// Every line is trimmed: no line feed stands next to other whitespace, and the
/// text neither begins nor ends with whitespace other than a line feed.
pub open spec fn lines_are_trimmed(s: Seq<char>) -> bool {
    &&& no_blank_at_line_feed(s)
    &&& s.len() > 0 ==> !is_inline_space(s[0]) && !is_inline_space(s.last())
}

/// No three line feeds stand in a row.
pub open spec fn no_triple_newline(s: Seq<char>) -> bool {
    forall|i: int|
        0 <= i < s.len() - 2 ==> !(#[trigger] s[i] == '\n' && s[i + 1] == '\n' && s[i + 2] == '\n')
}

/// The text is empty, or begins and ends with a character that is no whitespace.
pub open spec fn is_trimmed(s: Seq<char>) -> bool {
    s.len() > 0 ==> !is_whitespace(s[0]) && !is_whitespace(s.last())
}

/// A clean text: it holds no carriage return and no tab, no two spaces in a row
/// and no three line feeds in a row, each of its lines is trimmed, and so is the
/// text as a whole.
pub open spec fn is_clean(s: Seq<char>) -> bool {
    &&& plain_before(s, s.len() as int)
    &&& no_double_blank(s)
    &&& no_blank_at_line_feed(s)
    &&& no_triple_newline(s)
    &&& is_trimmed(s)
}

/// Unifying the line endings leaves no carriage return.
pub proof fn lemma_unify_has_no_return(s: Seq<char>)
    ensures
        forall|i: int|
            0 <= i < unify_line_endings(s).len() ==> #[trigger] unify_line_endings(s)[i] != '\r',
    decreases s.len(),
{
    if s.len() > 0 {
        let rest = unify_line_endings(s.skip(1));
        lemma_unify_has_no_return(s.skip(1));
        assert forall|i: int| 0 <= i < unify_line_endings(s).len() implies #[trigger]
            unify_line_endings(s)[i] != '\r' by {
            if s[0] == '\r' && s.len() > 1 && s[1] == '\n' {
            } else if i > 0 {
                assert(unify_line_endings(s)[i] == rest[i - 1]);
            }
        }
    }
}

/// Unifying the line endings of a text that is not empty leaves a text that is
/// not empty, with the same last character, but a line feed for a carriage
/// return.
pub proof fn lemma_unify_last(s: Seq<char>)
    requires
        s.len() > 0,
    ensures
        unify_line_endings(s).len() > 0,
        unify_line_endings(s).last() == if s.last() == '\r' {
            '\n'
        } else {
            s.last()
        },
    decreases s.len(),
{
    let rest = unify_line_endings(s.skip(1));
    if s.len() > 1 {
        assert(s.skip(1).last() == s.last());
        lemma_unify_last(s.skip(1));
        if s[0] == '\r' && s[1] == '\n' {
        } else {
            assert(unify_line_endings(s).last() == rest.last());
        }
    } else {
        assert(s.skip(1).len() == 0);
        assert(rest.len() == 0);
        assert(s.last() == s[0]);
    }
}

/// The scan of step two, followed by the last character of what it scanned:
/// no two neighbours of it are both a space or a tab, it begins with a space or
/// tab just where the scanned text does, and before its last character it holds
/// no tab, and no carriage return unless the scanned text held one.
#[verifier::rlimit(40)]
pub proof fn lemma_squeeze_shape(s: Seq<char>)
    requires
        s.len() > 0,
    ensures
        ({
            let f = squeeze_blanks(s).push(s.last());
            &&& no_double_blank(f)
            &&& is_space_or_tab(f[0]) == is_space_or_tab(s[0])
            &&& forall|i: int| 0 <= i < f.len() - 1 ==> #[trigger] f[i] != '\t'
            &&& (forall|j: int| 0 <= j < s.len() ==> s[j] != '\r') ==> forall|i: int|
                0 <= i < f.len() - 1 ==> #[trigger] f[i] != '\r'
        }),
    decreases s.len(),
{
    let f = squeeze_blanks(s).push(s.last());
    if s.len() == 1 {
        assert(squeeze_blanks(s).len() == 0);
        assert(f[0] == s[0]);
    } else {
        let rest = s.skip(1);
        let g = squeeze_blanks(rest).push(rest.last());
        assert(rest.last() == s.last());
        assert(rest[0] == s[1]);
        lemma_squeeze_shape(rest);
        if is_space_or_tab(s[0]) && is_space_or_tab(s[1]) {
            assert(f == g);
        } else {
            let m = if s[0] == '\t' {
                ' '
            } else {
                s[0]
            };
            assert(f =~= seq![m] + g);
            assert(f[0] == m);
            assert forall|i: int| 0 <= i < f.len() - 1 implies !(is_space_or_tab(#[trigger] f[i])
                && is_space_or_tab(f[i + 1])) by {
                if i > 0 {
                    assert(f[i] == g[i - 1]);
                    assert(f[i + 1] == g[i]);
                } else {
                    assert(f[1] == g[0]);
                }
            }
            assert forall|i: int| 0 <= i < f.len() - 1 implies #[trigger] f[i] != '\t' by {
                if i > 0 {
                    assert(f[i] == g[i - 1]);
                }
            }
            if forall|j: int| 0 <= j < s.len() ==> s[j] != '\r' {
                assert forall|j: int| 0 <= j < rest.len() implies rest[j] != '\r' by {
                    assert(rest[j] == s[j + 1]);
                }
                assert forall|i: int| 0 <= i < f.len() - 1 implies #[trigger] f[i] != '\r' by {
                    if i > 0 {
                        assert(f[i] == g[i - 1]);
                    } else {
                        assert(s[0] != '\r');
                    }
                }
            }
        }
    }
}

/// Step two leaves a text in which no two neighbours are both a space or a
/// tab, and which holds a tab or a carriage return at most as its last
/// character.
pub proof fn lemma_collapse_shape(raw: Seq<char>)
    requires
        raw.len() > 0,
    ensures
        ({
            let b = collapse_blanks(raw, unify_line_endings(raw));
            &&& b.len() > 0
            &&& no_double_blank(b)
            &&& plain_before(b, b.len() - 1)
        }),
{
    let u = unify_line_endings(raw);
    let b = collapse_blanks(raw, u);
    lemma_unify_last(raw);
    lemma_unify_has_no_return(raw);
    lemma_squeeze_shape(u);
    let f = squeeze_blanks(u).push(u.last());
    assert(b =~= squeeze_blanks(u).push(raw.last()));
    assert forall|i: int| 0 <= i < b.len() - 1 implies !(is_space_or_tab(#[trigger] b[i])
        && is_space_or_tab(b[i + 1])) by {
        assert(b[i] == f[i]);
        if i + 1 < b.len() - 1 {
            assert(b[i + 1] == f[i + 1]);
        } else if is_space_or_tab(raw.last()) {
            assert(b[i + 1] == f[i + 1]);
        }
    }
    assert forall|i: int| 0 <= i < b.len() - 1 implies #[trigger] b[i] != '\r' && b[i]
        != '\t' by {
        assert(b[i] == f[i]);
    }
}

/// Where the leading whitespace of a text ends: what is left of the text after
/// `trim_start` begins at the index returned, before which all is whitespace.
pub proof fn lemma_trim_start_shape(s: Seq<char>) -> (a: int)
    ensures
        0 <= a <= s.len(),
        trim_start(s) == s.skip(a),
        forall|j: int| 0 <= j < a ==> is_whitespace(#[trigger] s[j]),
        a < s.len() ==> !is_whitespace(s[a]),
    decreases s.len(),
{
    if s.len() > 0 && is_whitespace(s[0]) {
        let rest = s.skip(1);
        let a = lemma_trim_start_shape(rest);
        assert(rest.skip(a) =~= s.skip(a + 1));
        assert forall|j: int| 0 <= j < a + 1 implies is_whitespace(#[trigger] s[j]) by {
            if j > 0 {
                assert(s[j] == rest[j - 1]);
            }
        }
        if a + 1 < s.len() {
            assert(s[a + 1] == rest[a]);
        }
        a + 1
    } else {
        assert(s.skip(0) =~= s);
        0
    }
}

/// Where the trailing whitespace of a text begins: what is left of the text
/// after `trim_end` ends before the index returned, from which on all is
/// whitespace.
pub proof fn lemma_trim_end_shape(s: Seq<char>) -> (b: int)
    ensures
        0 <= b <= s.len(),
        trim_end(s) == s.take(b),
        forall|j: int| b <= j < s.len() ==> is_whitespace(#[trigger] s[j]),
        0 < b ==> !is_whitespace(s[b - 1]),
    decreases s.len(),
{
    if s.len() > 0 && is_whitespace(s.last()) {
        let rest = s.drop_last();
        let b = lemma_trim_end_shape(rest);
        assert(rest.take(b) =~= s.take(b));
        assert forall|j: int| b <= j < s.len() implies is_whitespace(#[trigger] s[j]) by {
            if j < s.len() - 1 {
                assert(s[j] == rest[j]);
            }
        }
        if 0 < b {
            assert(s[b - 1] == rest[b - 1]);
        }
        b
    } else {
        assert(s.take(s.len() as int) =~= s);
        s.len() as int
    }
}

/// The part of a text that `trim` leaves: it runs from the first index returned
/// to the second, all before and all after it is whitespace, and unless it is
/// empty it begins and ends with a character that is no whitespace.
pub proof fn lemma_trim_shape(s: Seq<char>) -> (r: (int, int))
    ensures
        0 <= r.0 <= r.1 <= s.len(),
        trim(s) == s.subrange(r.0, r.1),
        forall|j: int| 0 <= j < r.0 ==> is_whitespace(#[trigger] s[j]),
        forall|j: int| r.1 <= j < s.len() ==> is_whitespace(#[trigger] s[j]),
        r.0 < r.1 ==> !is_whitespace(s[r.0]) && !is_whitespace(s[r.1 - 1]),
{
    let a = lemma_trim_start_shape(s);
    let t = s.skip(a);
    let b = lemma_trim_end_shape(t);
    assert(t.take(b) =~= s.subrange(a, a + b));
    assert forall|j: int| a + b <= j < s.len() implies is_whitespace(#[trigger] s[j]) by {
        assert(s[j] == t[j - a]);
    }
    if 0 < b {
        assert(t[b - 1] == s[a + b - 1]);
        assert(t[0] == s[a]);
    }
    (a, a + b)
}

/// A text that is empty, or begins and ends with a character that is no
/// whitespace, is left as it is by `trim`.
pub proof fn lemma_trim_identity(s: Seq<char>)
    requires
        is_trimmed(s),
    ensures
        trim(s) == s,
{
}

/// What `first_newline` finds: no line feed stands before it, and where it lies
/// within the text it is one.
pub proof fn lemma_first_newline_found(s: Seq<char>)
    ensures
        first_newline(s) <= s.len(),
        forall|j: int| 0 <= j < first_newline(s) ==> #[trigger] s[j] != '\n',
        first_newline(s) < s.len() ==> s[first_newline(s) as int] == '\n',
    decreases s.len(),
{
    if s.len() == 0 || s[0] == '\n' {
    } else {
        let rest = s.skip(1);
        lemma_first_newline_found(rest);
        assert forall|j: int| 0 <= j < first_newline(s) implies #[trigger] s[j] != '\n' by {
            if j > 0 {
                assert(s[j] == rest[j - 1]);
            }
        }
        if first_newline(s) < s.len() {
            assert(s[first_newline(s) as int] == rest[first_newline(rest) as int]);
        }
    }
}

/// Step three, on a text in which no two neighbours are both a space or a tab
/// and which holds a tab or a carriage return at most as its last character,
/// leaves a text without any tab or carriage return, still without two such
/// neighbours, and with every line trimmed.
#[verifier::rlimit(40)]
pub proof fn lemma_trim_lines_shape(s: Seq<char>)
    requires
        plain_before(s, s.len() - 1),
        no_double_blank(s),
    ensures
        plain_before(trim_lines(s), trim_lines(s).len() as int),
        no_double_blank(trim_lines(s)),
        lines_are_trimmed(trim_lines(s)),
    decreases s.len(),
{
    let k = first_newline(s) as int;
    let c = trim_lines(s);
    lemma_first_newline_found(s);
    if k >= s.len() {
        let (a, b) = lemma_trim_shape(s);
        assert(c == s.subrange(a, b));
        assert forall|i: int| 0 <= i < c.len() implies #[trigger] c[i] != '\r' && c[i]
            != '\t' by {
            assert(c[i] == s[a + i]);
            if a + i == s.len() - 1 {
                assert(!is_whitespace(s[b - 1]));
            }
        }
        assert forall|i: int| 0 <= i < c.len() - 1 implies !(is_space_or_tab(#[trigger] c[i])
            && is_space_or_tab(c[i + 1])) by {
            assert(c[i] == s[a + i]);
            assert(c[i + 1] == s[a + i + 1]);
        }
        assert forall|i: int| 0 <= i < c.len() - 1 implies !(is_inline_space(#[trigger] c[i])
            && c[i + 1] == '\n') && !(c[i] == '\n' && is_inline_space(c[i + 1])) by {
            assert(c[i] == s[a + i]);
            assert(c[i + 1] == s[a + i + 1]);
        }
        if c.len() > 0 {
            assert(c[0] == s[a]);
            assert(c.last() == s[b - 1]);
        }
    } else {
        let line = s.take(k);
        let (a, b) = lemma_trim_shape(line);
        let x = trim(line);
        let n = x.len() as int;
        let rest = s.skip(k + 1);
        let y = trim_lines(rest);
        assert forall|i: int| 0 <= i < rest.len() - 1 implies #[trigger] rest[i] != '\r'
            && rest[i] != '\t' by {
            assert(rest[i] == s[k + 1 + i]);
        }
        assert forall|i: int| 0 <= i < rest.len() - 1 implies !(is_space_or_tab(
            #[trigger] rest[i],
        ) && is_space_or_tab(rest[i + 1])) by {
            assert(rest[i] == s[k + 1 + i]);
            assert(rest[i + 1] == s[k + 1 + i + 1]);
        }
        lemma_trim_lines_shape(rest);
        assert(c == x + seq!['\n'] + y);
        assert(c.len() == n + 1 + y.len());
        assert forall|i: int| 0 <= i < n implies #[trigger] c[i] == s[a + i] && a + i < k by {
            assert(c[i] == x[i]);
            assert(x[i] == line[a + i]);
        }
        assert(c[n] == '\n');
        assert forall|i: int| n < i < c.len() implies #[trigger] c[i] == y[i - n - 1] by {}
        if n > 0 {
            assert(x[0] == line[a]);
            assert(x[n - 1] == line[b - 1]);
            assert(c[0] == x[0]);
            assert(c[n - 1] == x[n - 1]);
            assert(!is_whitespace(c[0]));
            assert(!is_whitespace(c[n - 1]));
        }
        assert forall|i: int| 0 <= i < c.len() implies #[trigger] c[i] != '\r' && c[i]
            != '\t' by {
            if i < n {
                assert(c[i] == s[a + i]);
            } else if i > n {
                assert(c[i] == y[i - n - 1]);
            }
        }
        assert forall|i: int| 0 <= i < c.len() - 1 implies !(is_space_or_tab(#[trigger] c[i])
            && is_space_or_tab(c[i + 1])) by {
            if i + 1 < n {
                assert(c[i] == s[a + i]);
                assert(c[i + 1] == s[a + i + 1]);
            } else if i > n {
                assert(c[i] == y[i - n - 1]);
                assert(c[i + 1] == y[i - n]);
            }
        }
        assert forall|i: int| 0 <= i < c.len() - 1 implies !(is_inline_space(#[trigger] c[i])
            && c[i + 1] == '\n') && !(c[i] == '\n' && is_inline_space(c[i + 1])) by {
            if i + 1 < n {
                assert(c[i] == s[a + i]);
                assert(c[i + 1] == s[a + i + 1]);
            } else if i + 1 == n {
            } else if i == n {
                assert(c[i + 1] == y[0]);
            } else {
                assert(c[i] == y[i - n - 1]);
                assert(c[i + 1] == y[i - n]);
            }
        }
        if y.len() > 0 {
            assert(c.last() == y.last());
        } else {
            assert(c.last() == '\n');
        }
        if n == 0 {
            assert(c[0] == '\n');
        }
    }
}

/// Capping the line feeds of a text that is not empty leaves its first
/// character in place.
pub proof fn lemma_cap_first(s: Seq<char>)
    requires
        s.len() > 0,
    ensures
        cap_newlines(s).len() > 0,
        cap_newlines(s)[0] == s[0],
    decreases s.len(),
{
    if s.len() >= 3 && s[0] == '\n' && s[1] == '\n' && s[2] == '\n' {
        lemma_cap_first(s.skip(1));
    }
}

/// Whether `a` stands directly before `b` somewhere in the text.
pub open spec fn neighbours_in(s: Seq<char>, a: char, b: char) -> bool {
    exists|j: int| 0 <= j < s.len() - 1 && #[trigger] s[j] == a && s[j + 1] == b
}

/// Every character of the capped text is a character of the text, and every
/// two neighbours in the capped text are neighbours in the text.
pub proof fn lemma_cap_keeps(s: Seq<char>)
    ensures
        forall|i: int|
            0 <= i < cap_newlines(s).len() ==> s.contains(#[trigger] cap_newlines(s)[i]),
        forall|i: int|
            0 <= i < cap_newlines(s).len() - 1 ==> neighbours_in(
                s,
                #[trigger] cap_newlines(s)[i],
                cap_newlines(s)[i + 1],
            ),
    decreases s.len(),
{
    if s.len() > 0 {
        let rest = s.skip(1);
        let c = cap_newlines(s);
        let d = cap_newlines(rest);
        lemma_cap_keeps(rest);
        let dropped = s.len() >= 3 && s[0] == '\n' && s[1] == '\n' && s[2] == '\n';
        assert forall|i: int| 0 <= i < c.len() implies s.contains(#[trigger] c[i]) by {
            if !dropped && i == 0 {
                assert(s[0] == c[0]);
            } else {
                let at = if dropped {
                    i
                } else {
                    i - 1
                };
                assert(c[i] == d[at]);
                assert(rest.contains(d[at]));
                let j = choose|j: int| 0 <= j < rest.len() && rest[j] == d[at];
                assert(s[j + 1] == c[i]);
            }
        }
        assert forall|i: int| 0 <= i < c.len() - 1 implies neighbours_in(
            s,
            #[trigger] c[i],
            c[i + 1],
        ) by {
            if !dropped && i == 0 {
                lemma_cap_first(rest);
                assert(c[1] == d[0]);
                assert(s[0] == c[0] && s[1] == c[1]);
            } else {
                let at = if dropped {
                    i
                } else {
                    i - 1
                };
                assert(c[i] == d[at]);
                assert(c[i + 1] == d[at + 1]);
                assert(neighbours_in(rest, d[at], d[at + 1]));
                let j = choose|j: int|
                    0 <= j < rest.len() - 1 && #[trigger] rest[j] == d[at] && rest[j + 1] == d[at
                        + 1];
                assert(s[j + 1] == c[i] && s[j + 2] == c[i + 1]);
            }
        }
    }
}

/// The capped text holds no three line feeds in a row.
pub proof fn lemma_cap_has_no_triple(s: Seq<char>)
    ensures
        no_triple_newline(cap_newlines(s)),
    decreases s.len(),
{
    if s.len() > 0 {
        let rest = s.skip(1);
        let c = cap_newlines(s);
        let d = cap_newlines(rest);
        lemma_cap_has_no_triple(rest);
        let dropped = s.len() >= 3 && s[0] == '\n' && s[1] == '\n' && s[2] == '\n';
        if !dropped {
            assert(c == seq![s[0]] + d);
            assert forall|i: int| 0 <= i < c.len() - 2 implies !(#[trigger] c[i] == '\n' && c[i
                + 1] == '\n' && c[i + 2] == '\n') by {
                if i > 0 {
                    assert(c[i] == d[i - 1]);
                    assert(c[i + 1] == d[i]);
                    assert(c[i + 2] == d[i + 1]);
                } else {
                    lemma_cap_first(rest);
                    assert(c[1] == d[0]);
                    assert(d[0] == s[1]);
                    if s[0] == '\n' && s[1] == '\n' {
                        let tail = rest.skip(1);
                        assert(tail.len() == s.len() - 2);
                        if tail.len() > 0 {
                            assert(tail[0] == s[2]);
                            assert(rest[1] == s[2]);
                            lemma_cap_first(tail);
                            assert(d == seq![rest[0]] + cap_newlines(tail));
                            assert(d[1] == cap_newlines(tail)[0]);
                            assert(c[2] == d[1]);
                        } else {
                            assert(cap_newlines(tail).len() == 0);
                            assert(d.len() == 1);
                        }
                    }
                }
            }
        }
    }
}

/// A text without a carriage return is left as it is when line endings are
/// unified.
pub proof fn lemma_unify_identity(s: Seq<char>)
    requires
        forall|i: int| 0 <= i < s.len() ==> s[i] != '\r',
    ensures
        unify_line_endings(s) == s,
    decreases s.len(),
{
    if s.len() > 0 {
        let rest = s.skip(1);
        assert forall|i: int| 0 <= i < rest.len() implies rest[i] != '\r' by {
            assert(rest[i] == s[i + 1]);
        }
        lemma_unify_identity(rest);
        assert(seq![s[0]] + rest =~= s);
    }
}

/// A text without a tab, in which no two neighbours are both a space, is left
/// as it is by the scan of step two, but for its last character, which the scan
/// leaves out.
pub proof fn lemma_squeeze_identity(s: Seq<char>)
    requires
        s.len() > 0,
        forall|i: int| 0 <= i < s.len() ==> s[i] != '\t',
        no_double_blank(s),
    ensures
        squeeze_blanks(s) == s.drop_last(),
    decreases s.len(),
{
    if s.len() > 1 {
        let rest = s.skip(1);
        assert forall|i: int| 0 <= i < rest.len() implies rest[i] != '\t' by {
            assert(rest[i] == s[i + 1]);
        }
        assert forall|i: int| 0 <= i < rest.len() - 1 implies !(is_space_or_tab(
            #[trigger] rest[i],
        ) && is_space_or_tab(rest[i + 1])) by {
            assert(rest[i] == s[i + 1]);
            assert(rest[i + 1] == s[i + 2]);
        }
        lemma_squeeze_identity(rest);
        assert(!(is_space_or_tab(s[0]) && is_space_or_tab(s[1])));
        assert(seq![s[0]] + rest.drop_last() =~= s.drop_last());
    } else {
        assert(s.drop_last() =~= Seq::<char>::empty());
    }
}

/// A text whose lines are trimmed is left as it is by step three.
pub proof fn lemma_trim_lines_identity(s: Seq<char>)
    requires
        lines_are_trimmed(s),
    ensures
        trim_lines(s) == s,
    decreases s.len(),
{
    let k = first_newline(s) as int;
    lemma_first_newline_found(s);
    if k >= s.len() {
        if s.len() > 0 {
            assert(s[0] != '\n');
            assert(s.last() == s[s.len() - 1]);
            assert(s.last() != '\n');
        }
        lemma_trim_identity(s);
    } else {
        let line = s.take(k);
        let rest = s.skip(k + 1);
        if k > 0 {
            assert(line[0] == s[0]);
            assert(s[0] != '\n');
            assert(line.last() == s[k - 1]);
            assert(s[k - 1] != '\n');
            assert(!(is_inline_space(s[k - 1]) && s[k] == '\n'));
        }
        lemma_trim_identity(line);
        assert forall|i: int| 0 <= i < rest.len() - 1 implies !(is_inline_space(
            #[trigger] rest[i],
        ) && rest[i + 1] == '\n') && !(rest[i] == '\n' && is_inline_space(rest[i + 1])) by {
            assert(rest[i] == s[k + 1 + i]);
            assert(rest[i + 1] == s[k + 1 + i + 1]);
        }
        if rest.len() > 0 {
            assert(rest[0] == s[k + 1]);
            assert(!(s[k] == '\n' && is_inline_space(s[k + 1])));
            assert(rest.last() == s.last());
        }
        lemma_trim_lines_identity(rest);
        assert(line + seq!['\n'] + rest =~= s);
    }
}

/// A text without three line feeds in a row is left as it is when line feeds
/// are capped.
pub proof fn lemma_cap_identity(s: Seq<char>)
    requires
        no_triple_newline(s),
    ensures
        cap_newlines(s) == s,
    decreases s.len(),
{
    if s.len() > 0 {
        let rest = s.skip(1);
        assert forall|i: int| 0 <= i < rest.len() - 2 implies !(#[trigger] rest[i] == '\n'
            && rest[i + 1] == '\n' && rest[i + 2] == '\n') by {
            assert(rest[i] == s[i + 1]);
            assert(rest[i + 1] == s[i + 2]);
            assert(rest[i + 2] == s[i + 3]);
        }
        lemma_cap_identity(rest);
        assert(!(s.len() >= 3 && s[0] == '\n' && s[1] == '\n' && s[2] == '\n'));
        assert(seq![s[0]] + rest =~= s);
    }
}

/// Every cleaned text is clean.
#[verifier::rlimit(40)]
pub proof fn lemma_normalized_is_clean(raw: Seq<char>)
    ensures
        is_clean(normalized(raw)),
{
    if !is_blank(raw) {
        let b = collapse_blanks(raw, unify_line_endings(raw));
        let c = trim_lines(b);
        let d = cap_newlines(c);
        let e = trim(d);
        lemma_collapse_shape(raw);
        lemma_trim_lines_shape(b);
        lemma_cap_keeps(c);
        lemma_cap_has_no_triple(c);
        let (p, q) = lemma_trim_shape(d);
        assert(e == d.subrange(p, q));
        assert forall|i: int| 0 <= i < e.len() implies #[trigger] e[i] != '\r' && e[i]
            != '\t' by {
            assert(e[i] == d[p + i]);
            assert(c.contains(d[p + i]));
        }
        assert forall|i: int| 0 <= i < e.len() - 1 implies !(is_space_or_tab(#[trigger] e[i])
            && is_space_or_tab(e[i + 1])) && !(is_inline_space(e[i]) && e[i + 1] == '\n') && !(
        e[i] == '\n' && is_inline_space(e[i + 1])) by {
            assert(e[i] == d[p + i]);
            assert(e[i + 1] == d[p + i + 1]);
            assert(neighbours_in(c, d[p + i], d[p + i + 1]));
            let j = choose|j: int|
                0 <= j < c.len() - 1 && #[trigger] c[j] == d[p + i] && c[j + 1] == d[p + i + 1];
            assert(!(is_space_or_tab(c[j]) && is_space_or_tab(c[j + 1])));
        }
        assert forall|i: int| 0 <= i < e.len() - 2 implies !(#[trigger] e[i] == '\n' && e[i + 1]
            == '\n' && e[i + 2] == '\n') by {
            assert(e[i] == d[p + i]);
            assert(e[i + 1] == d[p + i + 1]);
            assert(e[i + 2] == d[p + i + 2]);
        }
        if e.len() > 0 {
            assert(e[0] == d[p]);
            assert(e.last() == d[q - 1]);
        }
    }
}

/// A clean text is left as it is by cleaning.
pub proof fn lemma_clean_is_fixed(s: Seq<char>)
    requires
        is_clean(s),
    ensures
        normalized(s) == s,
{
    if s.len() == 0 {
        assert(s =~= Seq::<char>::empty());
    } else {
        assert(!is_whitespace(s[0]));
        assert(!is_blank(s));
        lemma_unify_identity(s);
        lemma_squeeze_identity(s);
        assert(collapse_blanks(s, s) =~= s);
        lemma_trim_lines_identity(s);
        lemma_cap_identity(s);
        lemma_trim_identity(s);
    }
}

/// Cleaning is idempotent: to clean a cleaned text changes nothing.
pub proof fn lemma_normalize_idempotent(raw: Seq<char>)
    ensures
        normalized(normalized(raw)) == normalized(raw),
{
    lemma_normalized_is_clean(raw);
    lemma_clean_is_fixed(normalized(raw));
}

/// No cleaned text holds three line feeds in a row: every run of line feeds is
/// capped at two.
pub proof fn lemma_normalized_caps_newlines(raw: Seq<char>)
    ensures
        no_triple_newline(normalized(raw)),
{
    lemma_normalized_is_clean(raw);
}

/// A character that is no whitespace outlasts the unifying of line endings.
pub proof fn lemma_unify_keeps_ink(s: Seq<char>, at: int)
    requires
        0 <= at < s.len(),
        !is_whitespace(s[at]),
    ensures
        unify_line_endings(s).contains(s[at]),
    decreases s.len(),
{
    let u = unify_line_endings(s);
    let rest = s.skip(1);
    if at == 0 {
        assert(u[0] == s[0]);
    } else {
        assert(rest[at - 1] == s[at]);
        lemma_unify_keeps_ink(rest, at - 1);
        let j = choose|j: int| 0 <= j < unify_line_endings(rest).len() && unify_line_endings(
            rest,
        )[j] == s[at];
        if s[0] == '\r' && s.len() > 1 && s[1] == '\n' {
            assert(u[j] == s[at]);
        } else {
            assert(u[j + 1] == s[at]);
        }
    }
}

/// A character that is no whitespace and not the last outlasts the scan of step
/// two.
pub proof fn lemma_squeeze_keeps_ink(s: Seq<char>, at: int)
    requires
        0 <= at < s.len() - 1,
        !is_whitespace(s[at]),
    ensures
        squeeze_blanks(s).contains(s[at]),
    decreases s.len(),
{
    let q = squeeze_blanks(s);
    let rest = s.skip(1);
    if at == 0 {
        assert(q[0] == s[0]);
    } else {
        assert(rest[at - 1] == s[at]);
        lemma_squeeze_keeps_ink(rest, at - 1);
        let j = choose|j: int| 0 <= j < squeeze_blanks(rest).len() && squeeze_blanks(rest)[j]
            == s[at];
        if is_space_or_tab(s[0]) && is_space_or_tab(s[1]) {
            assert(q[j] == s[at]);
        } else {
            assert(q[j + 1] == s[at]);
        }
    }
}

/// A character that is no whitespace outlasts a trim.
pub proof fn lemma_trim_keeps_ink(s: Seq<char>, at: int)
    requires
        0 <= at < s.len(),
        !is_whitespace(s[at]),
    ensures
        trim(s).contains(s[at]),
{
    let (a, b) = lemma_trim_shape(s);
    assert(a <= at < b);
    assert(trim(s)[at - a] == s[at]);
}

/// A character that is no whitespace outlasts the trimming of lines.
pub proof fn lemma_trim_lines_keeps_ink(s: Seq<char>, at: int)
    requires
        0 <= at < s.len(),
        !is_whitespace(s[at]),
    ensures
        trim_lines(s).contains(s[at]),
    decreases s.len(),
{
    let k = first_newline(s) as int;
    let c = trim_lines(s);
    lemma_first_newline_found(s);
    if k >= s.len() {
        lemma_trim_keeps_ink(s, at);
    } else {
        let line = s.take(k);
        let x = trim(line);
        let rest = s.skip(k + 1);
        let y = trim_lines(rest);
        assert(c == x + seq!['\n'] + y);
        if at < k {
            assert(line[at] == s[at]);
            lemma_trim_keeps_ink(line, at);
            let j = choose|j: int| 0 <= j < x.len() && x[j] == s[at];
            assert(c[j] == s[at]);
        } else {
            assert(rest[at - k - 1] == s[at]);
            lemma_trim_lines_keeps_ink(rest, at - k - 1);
            let j = choose|j: int| 0 <= j < y.len() && y[j] == s[at];
            assert(c[x.len() + 1 + j] == y[j]);
        }
    }
}

/// A character that is no whitespace outlasts the capping of line feeds.
pub proof fn lemma_cap_keeps_ink(s: Seq<char>, at: int)
    requires
        0 <= at < s.len(),
        !is_whitespace(s[at]),
    ensures
        cap_newlines(s).contains(s[at]),
    decreases s.len(),
{
    let c = cap_newlines(s);
    let rest = s.skip(1);
    if at == 0 {
        assert(c[0] == s[0]);
    } else {
        assert(rest[at - 1] == s[at]);
        lemma_cap_keeps_ink(rest, at - 1);
        let j = choose|j: int| 0 <= j < cap_newlines(rest).len() && cap_newlines(rest)[j]
            == s[at];
        if s.len() >= 3 && s[0] == '\n' && s[1] == '\n' && s[2] == '\n' {
            assert(c[j] == s[at]);
        } else {
            assert(c[j + 1] == s[at]);
        }
    }
}

/// A text that is not blank is not blank after the first three steps of
/// cleaning either.
pub proof fn lemma_lines_keep_ink(raw: Seq<char>)
    requires
        !is_blank(raw),
    ensures
        !is_blank(trim_lines(collapse_blanks(raw, unify_line_endings(raw)))),
{
    let at = choose|at: int| 0 <= at < raw.len() && !is_whitespace(raw[at]);
    let ink = raw[at];
    let u = unify_line_endings(raw);
    let b = collapse_blanks(raw, u);
    let c = trim_lines(b);
    lemma_unify_keeps_ink(raw, at);
    lemma_unify_last(raw);
    let i = choose|i: int| 0 <= i < u.len() && u[i] == ink;
    if i < u.len() - 1 {
        lemma_squeeze_keeps_ink(u, i);
        let j = choose|j: int| 0 <= j < squeeze_blanks(u).len() && squeeze_blanks(u)[j] == ink;
        assert(b[j] == ink);
    } else {
        assert(u.last() == ink);
        assert(raw.last() == ink);
        assert(b[b.len() - 1] == ink);
    }
    assert(b.contains(ink));
    let j = choose|j: int| 0 <= j < b.len() && b[j] == ink;
    lemma_trim_lines_keeps_ink(b, j);
    let k = choose|k: int| 0 <= k < c.len() && c[k] == ink;
    assert(!is_whitespace(c[k]));
}

/// Only a blank text is cleaned away altogether: the cleaned text is empty just
/// where the text is blank.
pub proof fn lemma_normalized_empty_iff_blank(raw: Seq<char>)
    ensures
        normalized(raw).len() == 0 <==> is_blank(raw),
{
    if !is_blank(raw) {
        let c = trim_lines(collapse_blanks(raw, unify_line_endings(raw)));
        let d = cap_newlines(c);
        lemma_lines_keep_ink(raw);
        let k = choose|k: int| 0 <= k < c.len() && !is_whitespace(c[k]);
        lemma_cap_keeps_ink(c, k);
        let l = choose|l: int| 0 <= l < d.len() && d[l] == c[k];
        lemma_trim_keeps_ink(d, l);
    }
}

} // verus!

//! What cleaning does to a run of line feeds between two texts: however long
//! the run, two line feeds are left of it, with the cleaned texts around them.

use crate::normal_form::{
    is_inline_space, lemma_cap_first, lemma_collapse_shape, lemma_first_newline_found,
    lemma_lines_keep_ink, lemma_trim_end_shape, lemma_trim_lines_shape, lemma_trim_start_shape,
    lemma_unify_last, lines_are_trimmed,
};
use crate::normalize::{
    cap_newlines, collapse_blanks, first_newline, is_space_or_tab, lemma_first_newline,
    normalized, squeeze_blanks, trim_lines, unify_line_endings,
};
use crate::text::{is_blank, is_whitespace, trim, trim_end, trim_start};
use vstd::prelude::*;

verus! {

/// A run of `n` line feeds.
pub open spec fn newlines(n: nat) -> Seq<char> {
    Seq::new(n, |i: int| '\n')
}

/// The line endings of a text unified as they are when a line feed follows the
/// text: a carriage return at its end gives way to that line feed.
pub open spec fn unify_head(s: Seq<char>) -> Seq<char> {
    if s.len() > 0 && s.last() == '\r' {
        unify_line_endings(s).drop_last()
    } else {
        unify_line_endings(s)
    }
}

/// Unifying the line endings of a text that is followed by a line feed.
#[verifier::rlimit(40)]
pub proof fn lemma_unify_before_newline(s: Seq<char>, t: Seq<char>)
    requires
        t.len() > 0,
        t[0] == '\n',
    ensures
        unify_line_endings(s + t) == unify_head(s) + unify_line_endings(t),
    decreases s.len(),
{
    if s.len() == 0 {
        assert(s + t =~= t);
        assert(unify_head(s) + unify_line_endings(t) =~= unify_line_endings(t));
    } else {
        let rest = s.skip(1);
        let all = s + t;
        assert(all.skip(1) =~= rest + t);
        assert(all[0] == s[0]);
        lemma_unify_before_newline(rest, t);
        if rest.len() == 0 {
            assert(all[1] == t[0]);
            assert(rest + t =~= t);
            assert(unify_line_endings(rest) =~= Seq::<char>::empty());
            assert(s.last() == s[0]);
            if s[0] == '\r' {
                assert(unify_line_endings(s) =~= seq!['\n']);
                assert(unify_head(s) =~= Seq::<char>::empty());
                assert(unify_head(s) + unify_line_endings(t) =~= unify_line_endings(t));
            } else {
                assert(unify_head(s) =~= seq![s[0]]);
                assert(unify_head(rest) =~= Seq::<char>::empty());
                assert(unify_head(rest) + unify_line_endings(t) =~= unify_line_endings(t));
            }
        } else {
            assert(all[1] == s[1]);
            assert(rest.last() == s.last());
            lemma_unify_last(rest);
            if s[0] == '\r' && s[1] == '\n' {
                assert(unify_line_endings(s) == unify_line_endings(rest));
            } else {
                let m = if s[0] == '\r' {
                    '\n'
                } else {
                    s[0]
                };
                assert(unify_line_endings(s) == seq![m] + unify_line_endings(rest));
                assert(unify_head(s) =~= seq![m] + unify_head(rest));
                assert(seq![m] + (unify_head(rest) + unify_line_endings(t)) =~= unify_head(s)
                    + unify_line_endings(t));
            }
        }
    }
}

/// Unifying line endings leaves line feeds at the beginning as they are.
pub proof fn lemma_unify_newlines(n: nat, t: Seq<char>)
    ensures
        unify_line_endings(newlines(n) + t) == newlines(n) + unify_line_endings(t),
    decreases n,
{
    if n == 0 {
        assert(newlines(0) + t =~= t);
        assert(newlines(0) + unify_line_endings(t) =~= unify_line_endings(t));
    } else {
        let all = newlines(n) + t;
        assert(all[0] == '\n');
        assert(all.skip(1) =~= newlines((n - 1) as nat) + t);
        lemma_unify_newlines((n - 1) as nat, t);
        assert(seq!['\n'] + (newlines((n - 1) as nat) + unify_line_endings(t)) =~= newlines(n)
            + unify_line_endings(t));
    }
}

/// The scan of step two over a text that is followed by a line feed takes the
/// text as if only the line feed followed it.
pub proof fn lemma_squeeze_before_newline(p: Seq<char>, q: Seq<char>)
    requires
        q.len() > 0,
        q[0] == '\n',
    ensures
        squeeze_blanks(p + q) == squeeze_blanks(p.push('\n')) + squeeze_blanks(q),
    decreases p.len(),
{
    if p.len() == 0 {
        assert(p + q =~= q);
        assert(p.push('\n') =~= seq!['\n']);
        assert(squeeze_blanks(seq!['\n']) =~= Seq::<char>::empty());
        assert(squeeze_blanks(p.push('\n')) + squeeze_blanks(q) =~= squeeze_blanks(q));
    } else {
        let rest = p.skip(1);
        let all = p + q;
        let alone = p.push('\n');
        assert(all.skip(1) =~= rest + q);
        assert(alone.skip(1) =~= rest.push('\n'));
        assert(all[0] == p[0] && alone[0] == p[0]);
        assert(all[1] == alone[1]);
        lemma_squeeze_before_newline(rest, q);
        if is_space_or_tab(all[0]) && is_space_or_tab(all[1]) {
        } else {
            let m = if p[0] == '\t' {
                ' '
            } else {
                p[0]
            };
            assert(seq![m] + (squeeze_blanks(rest.push('\n')) + squeeze_blanks(q)) =~= (seq![m]
                + squeeze_blanks(rest.push('\n'))) + squeeze_blanks(q));
        }
    }
}

/// The scan of step two leaves line feeds at the beginning as they are, where
/// something follows them.
pub proof fn lemma_squeeze_newlines(n: nat, t: Seq<char>)
    requires
        t.len() > 0,
    ensures
        squeeze_blanks(newlines(n) + t) == newlines(n) + squeeze_blanks(t),
    decreases n,
{
    if n == 0 {
        assert(newlines(0) + t =~= t);
        assert(newlines(0) + squeeze_blanks(t) =~= squeeze_blanks(t));
    } else {
        let all = newlines(n) + t;
        assert(all[0] == '\n');
        assert(all.skip(1) =~= newlines((n - 1) as nat) + t);
        lemma_squeeze_newlines((n - 1) as nat, t);
        assert(seq!['\n'] + (newlines((n - 1) as nat) + squeeze_blanks(t)) =~= newlines(n)
            + squeeze_blanks(t));
    }
}

/// The scan of step two over a text and a line feed behind it is the scan of the
/// text, followed by the last character of the text, with a space for a tab.
pub proof fn lemma_squeeze_push_newline(u: Seq<char>)
    requires
        u.len() > 0,
    ensures
        squeeze_blanks(u.push('\n')) == squeeze_blanks(u).push(
            if u.last() == '\t' {
                ' '
            } else {
                u.last()
            },
        ),
    decreases u.len(),
{
    let all = u.push('\n');
    let rest = u.skip(1);
    assert(all.skip(1) =~= rest.push('\n'));
    assert(all[0] == u[0]);
    let m = if u[0] == '\t' {
        ' '
    } else {
        u[0]
    };
    if u.len() == 1 {
        assert(all[1] == '\n');
        assert(rest.push('\n') =~= seq!['\n']);
        assert(squeeze_blanks(seq!['\n']) =~= Seq::<char>::empty());
        assert(squeeze_blanks(u) =~= Seq::<char>::empty());
        assert(squeeze_blanks(all) =~= seq![m]);
        assert(u.last() == u[0]);
        assert(squeeze_blanks(u).push(m) =~= seq![m]);
    } else {
        assert(all[1] == u[1]);
        assert(rest.last() == u.last());
        lemma_squeeze_push_newline(rest);
        let z = if u.last() == '\t' {
            ' '
        } else {
            u.last()
        };
        if is_space_or_tab(u[0]) && is_space_or_tab(u[1]) {
        } else {
            assert(seq![m] + squeeze_blanks(rest).push(z) =~= (seq![m] + squeeze_blanks(
                rest,
            )).push(z));
        }
    }
}

/// Whitespace at the end of a text makes no difference to what is left of the
/// text after its leading whitespace is taken away and then its trailing one.
pub proof fn lemma_trim_push_whitespace(t: Seq<char>, w: char)
    requires
        is_whitespace(w),
    ensures
        trim(t.push(w)) == trim(t),
    decreases t.len(),
{
    let all = t.push(w);
    if t.len() == 0 {
        assert(all.skip(1) =~= Seq::<char>::empty());
        assert(trim_start(all) == trim_start(all.skip(1)));
        assert(trim_start(Seq::<char>::empty()) =~= Seq::<char>::empty());
        assert(t =~= Seq::<char>::empty());
    } else if is_whitespace(t[0]) {
        assert(all[0] == t[0]);
        assert(all.skip(1) =~= t.skip(1).push(w));
        lemma_trim_push_whitespace(t.skip(1), w);
    } else {
        assert(all[0] == t[0]);
        assert(trim_start(all) == all);
        assert(trim_start(t) == t);
        assert(all.drop_last() =~= t);
    }
}

/// Whitespace other than a line feed at the end of a text makes no difference
/// to the trimmed lines of the text.
pub proof fn lemma_trim_lines_push_whitespace(s: Seq<char>, w: char)
    requires
        is_inline_space(w),
    ensures
        trim_lines(s.push(w)) == trim_lines(s),
    decreases s.len(),
{
    let all = s.push(w);
    let k = first_newline(s) as int;
    lemma_first_newline_found(s);
    if k >= s.len() {
        assert forall|j: int| 0 <= j < all.len() implies all[j] != '\n' by {
            if j < s.len() {
                assert(all[j] == s[j]);
            }
        }
        lemma_first_newline(all, all.len() as int);
        lemma_trim_push_whitespace(s, w);
    } else {
        assert forall|j: int| 0 <= j < k implies all[j] != '\n' by {
            assert(all[j] == s[j]);
        }
        assert(all[k] == s[k]);
        lemma_first_newline(all, k);
        assert(all.take(k) =~= s.take(k));
        assert(all.skip(k + 1) =~= s.skip(k + 1).push(w));
        lemma_trim_lines_push_whitespace(s.skip(k + 1), w);
    }
}

/// The lines of two texts with a line feed between them are the lines of the
/// one, the line feed, and the lines of the other.
pub proof fn lemma_trim_lines_split(p: Seq<char>, q: Seq<char>)
    ensures
        trim_lines(p + seq!['\n'] + q) == trim_lines(p) + seq!['\n'] + trim_lines(q),
    decreases p.len(),
{
    let all = p + seq!['\n'] + q;
    let k = first_newline(p) as int;
    lemma_first_newline_found(p);
    assert forall|j: int| 0 <= j < k implies all[j] != '\n' by {
        assert(all[j] == p[j]);
    }
    if k >= p.len() {
        assert(all[k] == '\n');
        lemma_first_newline(all, k);
        assert(all.take(k) =~= p);
        assert(all.skip(k + 1) =~= q);
    } else {
        assert(all[k] == p[k]);
        lemma_first_newline(all, k);
        let rest = p.skip(k + 1);
        assert(all.take(k) =~= p.take(k));
        assert(all.skip(k + 1) =~= rest + seq!['\n'] + q);
        lemma_trim_lines_split(rest, q);
        let line = trim(p.take(k));
        assert(line + seq!['\n'] + (trim_lines(rest) + seq!['\n'] + trim_lines(q)) =~= (line
            + seq!['\n'] + trim_lines(rest)) + seq!['\n'] + trim_lines(q));
    }
}

/// Trimming the lines leaves line feeds at the beginning as they are.
pub proof fn lemma_trim_lines_newlines(n: nat, t: Seq<char>)
    ensures
        trim_lines(newlines(n) + t) == newlines(n) + trim_lines(t),
    decreases n,
{
    if n == 0 {
        assert(newlines(0) + t =~= t);
        assert(newlines(0) + trim_lines(t) =~= trim_lines(t));
    } else {
        let tail = newlines((n - 1) as nat) + t;
        let empty = Seq::<char>::empty();
        assert(newlines(n) + t =~= empty + seq!['\n'] + tail);
        lemma_trim_lines_split(empty, tail);
        lemma_trim_lines_newlines((n - 1) as nat, t);
        assert(trim_lines(empty) =~= empty);
        assert(empty + seq!['\n'] + (newlines((n - 1) as nat) + trim_lines(t)) =~= newlines(n)
            + trim_lines(t));
    }
}

/// The smaller of a number and two.
pub open spec fn at_most_two(n: nat) -> nat {
    if n < 2 {
        n
    } else {
        2
    }
}

/// Capping the line feeds of a text that does not end with one, and of what
/// follows it, caps those of the whole.
pub proof fn lemma_cap_concat(a: Seq<char>, b: Seq<char>)
    requires
        a.len() == 0 || a.last() != '\n',
    ensures
        cap_newlines(a + b) == cap_newlines(a) + cap_newlines(b),
    decreases a.len(),
{
    if a.len() == 0 {
        assert(a + b =~= b);
        assert(cap_newlines(a) + cap_newlines(b) =~= cap_newlines(b));
    } else {
        let all = a + b;
        let rest = a.skip(1);
        assert(all.skip(1) =~= rest + b);
        assert(all[0] == a[0]);
        if rest.len() > 0 {
            assert(rest.last() == a.last());
            assert(all[1] == a[1]);
        } else {
            assert(a.last() == a[0]);
        }
        if a.len() >= 3 {
            assert(all[2] == a[2]);
        } else if a.len() == 2 {
            assert(a.last() == a[1]);
        }
        lemma_cap_concat(rest, b);
        if all.len() >= 3 && all[0] == '\n' && all[1] == '\n' && all[2] == '\n' {
        } else {
            assert(seq![a[0]] + (cap_newlines(rest) + cap_newlines(b)) =~= (seq![a[0]]
                + cap_newlines(rest)) + cap_newlines(b));
        }
    }
}

/// Of a run of line feeds at the beginning of a text, capping leaves at most two.
pub proof fn lemma_cap_run(m: nat, r: Seq<char>)
    requires
        r.len() == 0 || r[0] != '\n',
    ensures
        cap_newlines(newlines(m) + r) == newlines(at_most_two(m)) + cap_newlines(r),
    decreases m,
{
    if m == 0 {
        assert(newlines(0) + r =~= r);
        assert(newlines(0) + cap_newlines(r) =~= cap_newlines(r));
    } else {
        let all = newlines(m) + r;
        assert(all[0] == '\n');
        assert(all.skip(1) =~= newlines((m - 1) as nat) + r);
        lemma_cap_run((m - 1) as nat, r);
        if m >= 3 {
            assert(all[1] == '\n' && all[2] == '\n');
        } else {
            if m == 2 {
                assert(all[1] == '\n');
                if all.len() >= 3 {
                    assert(all[2] == r[0]);
                }
            } else if all.len() >= 2 {
                assert(all[1] == r[0]);
            }
            assert(seq!['\n'] + (newlines((m - 1) as nat) + cap_newlines(r)) =~= newlines(m)
                + cap_newlines(r));
        }
    }
}

/// Capping the line feeds of a text that is not empty leaves its last character
/// in place.
pub proof fn lemma_cap_last(s: Seq<char>)
    requires
        s.len() > 0,
    ensures
        cap_newlines(s).len() > 0,
        cap_newlines(s).last() == s.last(),
    decreases s.len(),
{
    let rest = s.skip(1);
    if s.len() > 1 {
        assert(rest.last() == s.last());
        lemma_cap_last(rest);
        if s.len() >= 3 && s[0] == '\n' && s[1] == '\n' && s[2] == '\n' {
        } else {
            assert(cap_newlines(s).last() == cap_newlines(rest).last());
        }
    } else {
        assert(cap_newlines(rest).len() == 0);
        assert(s.last() == s[0]);
    }
}

/// The leading whitespace of a text that is not blank ends within it, whatever
/// follows the text.
pub proof fn lemma_trim_start_concat(a: Seq<char>, b: Seq<char>)
    requires
        !is_blank(a),
    ensures
        trim_start(a + b) == trim_start(a) + b,
    decreases a.len(),
{
    let all = a + b;
    assert(a.len() > 0);
    assert(all[0] == a[0]);
    if is_whitespace(a[0]) {
        let rest = a.skip(1);
        assert(all.skip(1) =~= rest + b);
        let at = choose|at: int| 0 <= at < a.len() && !is_whitespace(a[at]);
        assert(rest[at - 1] == a[at]);
        lemma_trim_start_concat(rest, b);
    }
}

/// The trailing whitespace of a text that is not blank begins within it,
/// whatever stands before the text.
pub proof fn lemma_trim_end_concat(a: Seq<char>, b: Seq<char>)
    requires
        !is_blank(b),
    ensures
        trim_end(a + b) == a + trim_end(b),
    decreases b.len(),
{
    let all = a + b;
    assert(b.len() > 0);
    assert(all.last() == b.last());
    if is_whitespace(b.last()) {
        let front = b.drop_last();
        assert(all.drop_last() =~= a + front);
        let at = choose|at: int| 0 <= at < b.len() && !is_whitespace(b[at]);
        assert(front[at] == b[at]);
        lemma_trim_end_concat(a, front);
    }
}

/// Blank text before a text is leading whitespace of the whole.
pub proof fn lemma_trim_start_blank(w: Seq<char>, y: Seq<char>)
    requires
        is_blank(w),
    ensures
        trim_start(w + y) == trim_start(y),
    decreases w.len(),
{
    let all = w + y;
    if w.len() == 0 {
        assert(all =~= y);
    } else {
        assert(all[0] == w[0]);
        let rest = w.skip(1);
        assert(all.skip(1) =~= rest + y);
        assert forall|i: int| 0 <= i < rest.len() implies is_whitespace(#[trigger] rest[i]) by {
            assert(rest[i] == w[i + 1]);
        }
        lemma_trim_start_blank(rest, y);
    }
}

/// Blank text behind a text is trailing whitespace of the whole.
pub proof fn lemma_trim_end_blank(y: Seq<char>, w: Seq<char>)
    requires
        is_blank(w),
    ensures
        trim_end(y + w) == trim_end(y),
    decreases w.len(),
{
    let all = y + w;
    if w.len() == 0 {
        assert(all =~= y);
    } else {
        assert(all.last() == w.last());
        let front = w.drop_last();
        assert(all.drop_last() =~= y + front);
        assert forall|i: int| 0 <= i < front.len() implies is_whitespace(#[trigger] front[i]) by {
            assert(front[i] == w[i]);
        }
        lemma_trim_end_blank(y, front);
    }
}

/// In a text whose lines are trimmed, whitespace that runs up to the end of the
/// text is made of line feeds.
pub proof fn lemma_trailing_whitespace_is_newlines(s: Seq<char>, from: int, at: int)
    requires
        lines_are_trimmed(s),
        0 <= from <= at < s.len(),
        forall|j: int| from <= j < s.len() ==> is_whitespace(#[trigger] s[j]),
    ensures
        s[at] == '\n',
    decreases s.len() - at,
{
    if s[at] != '\n' {
        assert(is_inline_space(s[at]));
        if at + 1 < s.len() {
            lemma_trailing_whitespace_is_newlines(s, from, at + 1);
        } else {
            assert(s.last() == s[at]);
        }
    }
}

/// In a text whose lines are trimmed, whitespace that runs from the beginning
/// of the text is made of line feeds.
pub proof fn lemma_leading_whitespace_is_newlines(s: Seq<char>, upto: int, at: int)
    requires
        lines_are_trimmed(s),
        0 <= at < upto <= s.len(),
        forall|j: int| 0 <= j < upto ==> is_whitespace(#[trigger] s[j]),
    ensures
        s[at] == '\n',
    decreases at,
{
    if s[at] != '\n' {
        assert(is_inline_space(s[at]));
        if at > 0 {
            lemma_leading_whitespace_is_newlines(s, upto, at - 1);
            assert(!(s[at - 1] == '\n' && is_inline_space(s[at - 1 + 1])));
        }
    }
}

/// A text whose lines are trimmed and which is not blank ends with line feeds
/// only, behind a character that is no whitespace: the index returned is where
/// the line feeds begin.
pub proof fn lemma_trailing_newlines(p: Seq<char>) -> (end: int)
    requires
        lines_are_trimmed(p),
        !is_blank(p),
    ensures
        0 < end <= p.len(),
        p == p.take(end) + newlines((p.len() - end) as nat),
        !is_whitespace(p[end - 1]),
{
    let end = lemma_trim_end_shape(p);
    if end == 0 {
        assert forall|j: int| 0 <= j < p.len() implies is_whitespace(#[trigger] p[j]) by {}
    }
    assert forall|j: int| end <= j < p.len() implies #[trigger] p[j] == '\n' by {
        lemma_trailing_whitespace_is_newlines(p, end, j);
    }
    assert(p =~= p.take(end) + newlines((p.len() - end) as nat));
    end
}

/// A text whose lines are trimmed and which is not blank begins with line feeds
/// only, before a character that is no whitespace: the index returned is where
/// the line feeds end.
pub proof fn lemma_leading_newlines(r: Seq<char>) -> (start: int)
    requires
        lines_are_trimmed(r),
        !is_blank(r),
    ensures
        0 <= start < r.len(),
        r == newlines(start as nat) + r.skip(start),
        !is_whitespace(r[start]),
{
    let start = lemma_trim_start_shape(r);
    if start == r.len() {
        assert forall|j: int| 0 <= j < r.len() implies is_whitespace(#[trigger] r[j]) by {}
    }
    assert forall|j: int| 0 <= j < start implies #[trigger] r[j] == '\n' by {
        lemma_leading_whitespace_is_newlines(r, start, j);
    }
    assert(r =~= newlines(start as nat) + r.skip(start));
    start
}

/// A run of line feeds is blank.
pub proof fn lemma_newlines_are_blank(n: nat)
    ensures
        is_blank(newlines(n)),
{
}

/// Line feeds behind a text that ends with a character that is no whitespace
/// are gone once the line feeds are capped and the whole is trimmed.
pub proof fn lemma_cap_and_trim_with_trailing(ahead: Seq<char>, t: nat)
    requires
        ahead.len() > 0,
        !is_whitespace(ahead.last()),
    ensures
        trim(cap_newlines(ahead + newlines(t))) == trim_start(cap_newlines(ahead)),
{
    let a = cap_newlines(ahead);
    let kept = newlines(at_most_two(t));
    lemma_cap_last(ahead);
    assert(!is_blank(a)) by {
        assert(!is_whitespace(a[a.len() - 1]));
    }
    lemma_cap_concat(ahead, newlines(t));
    assert(newlines(t) =~= newlines(t) + Seq::<char>::empty());
    lemma_cap_run(t, Seq::<char>::empty());
    assert(cap_newlines(Seq::<char>::empty()) =~= Seq::<char>::empty());
    assert(cap_newlines(newlines(t)) =~= kept);
    lemma_trim_start_concat(a, kept);
    lemma_newlines_are_blank(at_most_two(t));
    lemma_trim_end_blank(trim_start(a), kept);
    lemma_trim_start_keeps_end(a);
}

/// What is left of a text that ends with a character that is no whitespace,
/// once its leading whitespace is taken away, ends with that character and has
/// no trailing whitespace.
pub proof fn lemma_trim_start_keeps_end(a: Seq<char>)
    requires
        a.len() > 0,
        !is_whitespace(a.last()),
    ensures
        trim_start(a).len() > 0,
        trim_start(a).last() == a.last(),
        trim_end(trim_start(a)) == trim_start(a),
{
    let skipped = lemma_trim_start_shape(a);
    if skipped == a.len() {
        assert(is_whitespace(a[a.len() - 1]));
    }
    assert(a.skip(skipped).last() == a.last());
}

/// Line feeds before a text that begins with a character that is no whitespace
/// are gone once the line feeds are capped and the whole is trimmed.
pub proof fn lemma_cap_and_trim_with_leading(h: nat, behind: Seq<char>)
    requires
        behind.len() > 0,
        !is_whitespace(behind[0]),
    ensures
        trim(cap_newlines(newlines(h) + behind)) == trim_end(cap_newlines(behind)),
{
    let b = cap_newlines(behind);
    let led = newlines(at_most_two(h));
    lemma_cap_first(behind);
    lemma_cap_run(h, behind);
    lemma_newlines_are_blank(at_most_two(h));
    lemma_trim_start_blank(led, b);
    assert(trim_start(b) == b);
}

/// Of a run of two or more line feeds between a text that ends and a text that
/// begins with a character that is no whitespace, two line feeds are left once
/// the line feeds are capped and the whole is trimmed.
pub proof fn lemma_cap_and_trim_with_run(ahead: Seq<char>, m: nat, behind: Seq<char>)
    requires
        ahead.len() > 0,
        !is_whitespace(ahead.last()),
        behind.len() > 0,
        !is_whitespace(behind[0]),
        m >= 2,
    ensures
        trim(cap_newlines(ahead + (newlines(m) + behind))) == trim_start(cap_newlines(ahead)) + newlines(2)
            + trim_end(cap_newlines(behind)),
{
    let a = cap_newlines(ahead);
    let b = cap_newlines(behind);
    let two = newlines(2);
    lemma_cap_last(ahead);
    lemma_cap_first(behind);
    assert(!is_blank(a)) by {
        assert(!is_whitespace(a[a.len() - 1]));
    }
    assert(!is_blank(b)) by {
        assert(!is_whitespace(b[0]));
    }
    lemma_cap_concat(ahead, newlines(m) + behind);
    lemma_cap_run(m, behind);
    assert(cap_newlines(ahead + (newlines(m) + behind)) == a + (two + b));
    lemma_trim_start_concat(a, two + b);
    assert(trim_start(a) + (two + b) =~= (trim_start(a) + two) + b);
    lemma_trim_end_concat(trim_start(a) + two, b);
}

/// Two texts whose lines are trimmed and which are not blank, with a run of two
/// or more line feeds between them: once the line feeds are capped and the
/// whole is trimmed, two line feeds stand between what is left of the one text
/// and what is left of the other.
pub proof fn lemma_cap_and_trim_around_run(p: Seq<char>, run: nat, r: Seq<char>)
    requires
        lines_are_trimmed(p),
        lines_are_trimmed(r),
        !is_blank(p),
        !is_blank(r),
        run >= 2,
    ensures
        trim(cap_newlines(p + newlines(run) + r)) == trim(cap_newlines(p)) + newlines(2) + trim(
            cap_newlines(r),
        ),
{
    let end = lemma_trailing_newlines(p);
    let start = lemma_leading_newlines(r);
    let ahead = p.take(end);
    let behind = r.skip(start);
    let t = (p.len() - end) as nat;
    let h = start as nat;
    assert(ahead.last() == p[end - 1]);
    assert(behind[0] == r[start]);
    lemma_cap_and_trim_with_trailing(ahead, t);
    lemma_cap_and_trim_with_leading(h, behind);
    lemma_cap_and_trim_with_run(ahead, t + run + h, behind);
    assert(p + newlines(run) + r =~= ahead + (newlines(t + run + h) + behind)) by {
        assert(newlines(t) + newlines(run) + newlines(h) =~= newlines(t + run + h));
        assert(p + newlines(run) + r =~= (ahead + newlines(t)) + newlines(run) + (newlines(h) + behind));
    }
}

/// The first three steps of cleaning, on a text that is followed by a line
/// feed, end in the trimmed lines of the text alone.
proof fn lemma_lines_before_newline(before: Seq<char>)
    requires
        before.len() > 0,
    ensures
        trim_lines(squeeze_blanks(unify_head(before).push('\n'))) == trim_lines(
            collapse_blanks(before, unify_line_endings(before)),
        ),
{
    let ub = unify_line_endings(before);
    let head = unify_head(before);
    let scanned = squeeze_blanks(head.push('\n'));
    let alone = collapse_blanks(before, ub);
    lemma_unify_last(before);
    assert(alone =~= squeeze_blanks(ub).push(before.last()));
    if before.last() == '\r' {
        assert(head.push('\n') =~= ub);
        lemma_trim_lines_push_whitespace(scanned, '\r');
    } else {
        let z = before.last();
        lemma_squeeze_push_newline(ub);
        if z == '\t' {
            lemma_trim_lines_push_whitespace(squeeze_blanks(ub), ' ');
            lemma_trim_lines_push_whitespace(squeeze_blanks(ub), '\t');
        }
    }
}

/// A run of two or more line feeds between two texts that are not blank leaves
/// exactly two line feeds in the cleaned text, between the cleaned form of the
/// one text and the cleaned form of the other.
#[verifier::rlimit(40)]
pub proof fn lemma_newline_run_becomes_two(before: Seq<char>, run: nat, after: Seq<char>)
    requires
        !is_blank(before),
        !is_blank(after),
        run >= 2,
    ensures
        normalized(before + newlines(run) + after) == normalized(before) + newlines(2)
            + normalized(after),
{
    let x = before + newlines(run) + after;
    let tail = newlines(run) + after;
    assert(x =~= before + tail);
    let at = choose|at: int| 0 <= at < before.len() && !is_whitespace(before[at]);
    assert(x[at] == before[at]);
    assert(!is_blank(x));
    assert(after.len() > 0);
    assert(x.last() == after.last());
    // line endings
    let head = unify_head(before);
    let ua = unify_line_endings(after);
    assert(tail[0] == '\n');
    lemma_unify_before_newline(before, tail);
    lemma_unify_newlines(run, after);
    lemma_unify_last(after);
    let ux = unify_line_endings(x);
    let q = newlines(run) + ua;
    assert(ux == head + q);
    // spaces and tabs
    assert(q[0] == '\n');
    lemma_squeeze_before_newline(head, q);
    lemma_squeeze_newlines(run, ua);
    let scanned = squeeze_blanks(head.push('\n'));
    let b_after = collapse_blanks(after, ua);
    let b_x = collapse_blanks(x, ux);
    assert(b_x =~= scanned + seq!['\n'] + (newlines((run - 1) as nat) + b_after));
    // lines
    let c_before = trim_lines(collapse_blanks(before, unify_line_endings(before)));
    let c_after = trim_lines(b_after);
    lemma_trim_lines_split(scanned, newlines((run - 1) as nat) + b_after);
    lemma_trim_lines_newlines((run - 1) as nat, b_after);
    lemma_lines_before_newline(before);
    let c_x = trim_lines(b_x);
    assert(c_x =~= c_before + newlines(run) + c_after);
    // line feeds, and the trim of the whole
    lemma_collapse_shape(before);
    lemma_trim_lines_shape(collapse_blanks(before, unify_line_endings(before)));
    lemma_collapse_shape(after);
    lemma_trim_lines_shape(b_after);
    lemma_lines_keep_ink(before);
    lemma_lines_keep_ink(after);
    lemma_cap_and_trim_around_run(c_before, run, c_after);
}

/// A run of three or more line feeds between two texts that are not blank
/// becomes exactly two line feeds at that place in the cleaned text.
pub proof fn lemma_long_newline_run_is_capped(before: Seq<char>, run: nat, after: Seq<char>)
    requires
        !is_blank(before),
        !is_blank(after),
        run >= 3,
    ensures
        normalized(before + newlines(run) + after) == normalized(before) + seq!['\n', '\n']
            + normalized(after),
{
    lemma_newline_run_becomes_two(before, run, after);
    assert(newlines(2) =~= seq!['\n', '\n']);
}

} // verus!

//! Laws of the clipboard history: what adding an entry keeps true, whatever the
//! history and the entry, and what a search finds.

use crate::entry::{entry_matches, EntryView};
use crate::history::{
    capped, search_results, well_formed, with_entry, without_content, without_id, HistoryView,
};
use crate::text::lowercase;
use vstd::prelude::*;

verus! {

/// No two of the entries have the same content.
pub open spec fn distinct_contents(entries: Seq<EntryView>) -> bool {
    forall|i: int, j: int|
        0 <= i < j < entries.len() ==> (#[trigger] entries[i]).content != (
        #[trigger] entries[j]).content
}

/// None of the entries has the given content.
pub open spec fn lacks_content(entries: Seq<EntryView>, content: Seq<char>) -> bool {
    forall|i: int| 0 <= i < entries.len() ==> (#[trigger] entries[i]).content != content
}

/// The history after the given entries are added one after the other, the
/// first of them first.
pub open spec fn with_entries(h: HistoryView, added: Seq<EntryView>) -> HistoryView
    decreases added.len(),
{
    if added.len() == 0 {
        h
    } else {
        with_entry(with_entries(h, added.drop_last()), added.last())
    }
}

/// Entries that all pass a filter are left as they are by it.
pub proof fn lemma_filter_keeps_all<A>(s: Seq<A>, keep: spec_fn(A) -> bool)
    requires
        forall|i: int| 0 <= i < s.len() ==> keep(#[trigger] s[i]),
    ensures
        s.filter(keep) == s,
    decreases s.len(),
{
    reveal(Seq::filter);
    if s.len() > 0 {
        let front = s.drop_last();
        assert forall|i: int| 0 <= i < front.len() implies keep(#[trigger] front[i]) by {
            assert(front[i] == s[i]);
        }
        lemma_filter_keeps_all(front, keep);
        assert(front.push(s.last()) =~= s);
    }
}

/// Two filters that agree on every value leave the same entries.
pub proof fn lemma_filter_agrees<A>(s: Seq<A>, p: spec_fn(A) -> bool, q: spec_fn(A) -> bool)
    requires
        forall|a: A| #[trigger] p(a) == q(a),
    ensures
        s.filter(p) == s.filter(q),
    decreases s.len(),
{
    reveal(Seq::filter);
    if s.len() > 0 {
        lemma_filter_agrees(s.drop_last(), p, q);
        assert(p(s.last()) == q(s.last()));
    }
}

/// Entries with distinct contents keep distinct contents when some of them are
/// filtered out.
pub proof fn lemma_filter_keeps_distinct(entries: Seq<EntryView>, keep: spec_fn(EntryView) -> bool)
    requires
        distinct_contents(entries),
    ensures
        distinct_contents(entries.filter(keep)),
    decreases entries.len(),
{
    reveal(Seq::filter);
    if entries.len() > 0 {
        let front = entries.drop_last();
        let last = entries.last();
        assert forall|i: int, j: int| 0 <= i < j < front.len() implies (#[trigger] front[i]).content
            != (#[trigger] front[j]).content by {
            assert(front[i] == entries[i]);
            assert(front[j] == entries[j]);
        }
        lemma_filter_keeps_distinct(front, keep);
        let kept = front.filter(keep);
        if keep(last) {
            let all = kept.push(last);
            assert forall|i: int, j: int| 0 <= i < j < all.len() implies (#[trigger] all[i]).content
                != (#[trigger] all[j]).content by {
                if j == kept.len() {
                    assert(all[i] == kept[i]);
                    assert(kept.contains(kept[i]));
                    front.lemma_filter_contains_rev(keep, kept[i]);
                    let k = choose|k: int| 0 <= k < front.len() && front[k] == kept[i];
                    assert(entries[k] == kept[i]);
                    assert(entries[entries.len() - 1] == last);
                } else {
                    assert(all[i] == kept[i]);
                    assert(all[j] == kept[j]);
                }
            }
        }
    }
}

/// A history never holds more entries than its limit after an entry is added.
pub proof fn lemma_add_respects_limit(h: HistoryView, entry: EntryView)
    ensures
        with_entry(h, entry).entries.len() <= h.max_entries,
        with_entry(h, entry).max_entries == h.max_entries,
{
}

/// After an entry is added to a history with a positive limit, it is the first
/// entry, and the only one with its content: whatever entry had that content
/// before is gone.
pub proof fn lemma_add_puts_first_and_dedups(h: HistoryView, entry: EntryView)
    requires
        h.max_entries > 0,
    ensures
        with_entry(h, entry).entries.len() > 0,
        with_entry(h, entry).entries[0] == entry,
        forall|i: int|
            1 <= i < with_entry(h, entry).entries.len() ==> (#[trigger] with_entry(
                h,
                entry,
            ).entries[i]).content != entry.content,
{
    let keep = |e: EntryView| e.content != entry.content;
    let others = h.entries.filter(keep);
    assert(others == without_content(h.entries, entry.content));
    let all = seq![entry] + others;
    let after = with_entry(h, entry).entries;
    assert(after == capped(all, h.max_entries));
    assert(after[0] == all[0]);
    assert forall|i: int| 1 <= i < after.len() implies (#[trigger] after[i]).content
        != entry.content by {
        assert(after[i] == all[i]);
        assert(all[i] == others[i - 1]);
        h.entries.lemma_filter_pred(keep, i - 1);
    }
}

/// The entries that leave when the limit is exceeded are the oldest: what a
/// history holds after an entry is added is a beginning of the new entry
/// followed by the former entries of other content, in their order. Where no
/// former entry has the content of the new one, those are all former entries.
pub proof fn lemma_add_evicts_oldest(h: HistoryView, entry: EntryView)
    ensures
        with_entry(h, entry).entries.is_prefix_of(
            seq![entry] + without_content(h.entries, entry.content),
        ),
        lacks_content(h.entries, entry.content) ==> with_entry(h, entry).entries == capped(
            seq![entry] + h.entries,
            h.max_entries,
        ),
{
    let keep = |e: EntryView| e.content != entry.content;
    let all = seq![entry] + without_content(h.entries, entry.content);
    let after = with_entry(h, entry).entries;
    if all.len() > h.max_entries {
        assert(after =~= all.subrange(0, after.len() as int));
    } else {
        assert(after =~= all.subrange(0, after.len() as int));
    }
    if lacks_content(h.entries, entry.content) {
        lemma_filter_keeps_all(h.entries, keep);
    }
}

/// Adding an entry keeps a history well formed.
pub proof fn lemma_add_keeps_well_formed(h: HistoryView, entry: EntryView)
    requires
        well_formed(h),
    ensures
        well_formed(with_entry(h, entry)),
{
    let keep = |e: EntryView| e.content != entry.content;
    let others = h.entries.filter(keep);
    let all = seq![entry] + others;
    let after = with_entry(h, entry).entries;
    assert(distinct_contents(h.entries));
    lemma_filter_keeps_distinct(h.entries, keep);
    assert forall|i: int, j: int| 0 <= i < j < after.len() implies after[i].content
        != after[j].content by {
        assert(after[i] == all[i]);
        assert(after[j] == all[j]);
        assert(all[j] == others[j - 1]);
        if i == 0 {
            h.entries.lemma_filter_pred(keep, j - 1);
        } else {
            assert(all[i] == others[i - 1]);
        }
    }
}

/// Whatever entries are added to a history, one after the other, it never
/// holds more entries than its limit once the first is added, and a well-formed
/// history stays well formed throughout.
pub proof fn lemma_adds_respect_limit(h: HistoryView, added: Seq<EntryView>)
    ensures
        with_entries(h, added).max_entries == h.max_entries,
        added.len() > 0 ==> with_entries(h, added).entries.len() <= h.max_entries,
        well_formed(h) ==> well_formed(with_entries(h, added)),
    decreases added.len(),
{
    if added.len() > 0 {
        lemma_adds_respect_limit(h, added.drop_last());
        let before = with_entries(h, added.drop_last());
        lemma_add_respects_limit(before, added.last());
        if well_formed(h) {
            lemma_add_keeps_well_formed(before, added.last());
        }
    }
}

/// A search for the empty text finds every entry, in the order of the history.
pub proof fn lemma_search_for_nothing_finds_all(entries: Seq<EntryView>, query: Seq<char>)
    requires
        query.len() == 0,
    ensures
        search_results(entries, query) == entries,
{
}

/// What a search finds are entries of the history, each of which answers the
/// query; an entry that answers the query is found.
pub proof fn lemma_search_finds_matches(entries: Seq<EntryView>, query: Seq<char>)
    requires
        query.len() > 0,
    ensures
        forall|i: int|
            0 <= i < search_results(entries, query).len() ==> entry_matches(
                #[trigger] search_results(entries, query)[i],
                query,
            ) && entries.contains(search_results(entries, query)[i]),
        forall|i: int|
            0 <= i < entries.len() && entry_matches(entries[i], query) ==> search_results(
                entries,
                query,
            ).contains(#[trigger] entries[i]),
{
    let wanted = |e: EntryView| entry_matches(e, query);
    let found = entries.filter(wanted);
    assert forall|i: int| 0 <= i < found.len() implies entry_matches(#[trigger] found[i], query)
        && entries.contains(found[i]) by {
        entries.lemma_filter_pred(wanted, i);
        assert(found.contains(found[i]));
        entries.lemma_filter_contains_rev(wanted, found[i]);
    }
    assert forall|i: int| 0 <= i < entries.len() && entry_matches(entries[i], query) implies
        found.contains(#[trigger] entries[i]) by {
        entries.lemma_filter_contains(wanted, i);
    }
}

/// A search pays no heed to the case of the query: two queries with the same
/// lowercase form find the same entries.
pub proof fn lemma_search_ignores_case(entries: Seq<EntryView>, query: Seq<char>, other: Seq<char>)
    requires
        query.len() > 0,
        other.len() > 0,
        lowercase(query) == lowercase(other),
    ensures
        search_results(entries, query) == search_results(entries, other),
{
    let p = |e: EntryView| entry_matches(e, query);
    let q = |e: EntryView| entry_matches(e, other);
    assert forall|e: EntryView| #[trigger] p(e) == q(e) by {}
    lemma_filter_agrees(entries, p, q);
}

/// A search pays no heed to the case of the content either: two entries of the
/// same kind whose contents have the same lowercase form answer the same
/// queries.
pub proof fn lemma_match_ignores_case_of_content(a: EntryView, b: EntryView, query: Seq<char>)
    requires
        lowercase(a.content) == lowercase(b.content),
        a.content_type == b.content_type,
    ensures
        entry_matches(a, query) == entry_matches(b, query),
{
}

/// After the entries with an identifier are removed, no entry carries it, every
/// entry that is left was there before, and every entry with another identifier
/// is left.
pub proof fn lemma_remove_leaves_the_others(entries: Seq<EntryView>, id: Seq<char>)
    ensures
        forall|i: int|
            0 <= i < without_id(entries, id).len() ==> (#[trigger] without_id(entries, id)[i]).id
                != id && entries.contains(without_id(entries, id)[i]),
        forall|i: int|
            0 <= i < entries.len() && entries[i].id != id ==> without_id(entries, id).contains(
                #[trigger] entries[i],
            ),
        without_id(entries, id).len() <= entries.len(),
{
    let keep = |e: EntryView| e.id != id;
    let left = entries.filter(keep);
    assert forall|i: int| 0 <= i < left.len() implies (#[trigger] left[i]).id != id
        && entries.contains(left[i]) by {
        entries.lemma_filter_pred(keep, i);
        assert(left.contains(left[i]));
        entries.lemma_filter_contains_rev(keep, left[i]);
    }
    assert forall|i: int| 0 <= i < entries.len() && entries[i].id != id implies left.contains(
        #[trigger] entries[i],
    ) by {
        entries.lemma_filter_contains(keep, i);
    }
    entries.lemma_filter_len(keep);
}

} // verus!

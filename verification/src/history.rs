//! The clipboard history: a bounded list of entries, most recent first, in which
//! no text is recorded twice.

use crate::entry::{entry_for, entry_matches, option_view, ClipboardEntry, EntryView, Timestamp};
use vstd::prelude::*;

verus! {

/// The history of clipboard entries, most recent first, and the number of
/// entries it may hold.
#[derive(Debug)]
pub struct ClipboardHistory {
    pub entries: Vec<ClipboardEntry>,
    pub max_entries: usize,
}

/// The mathematical value of a history.
pub struct HistoryView {
    pub entries: Seq<EntryView>,
    pub max_entries: nat,
}

/// The values of a sequence of entries.
pub open spec fn entry_views(entries: Seq<ClipboardEntry>) -> Seq<EntryView> {
    entries.map_values(|e: ClipboardEntry| e@)
}

/// The values of a sequence of borrowed entries.
pub open spec fn borrowed_views(entries: Seq<&ClipboardEntry>) -> Seq<EntryView> {
    entries.map_values(|e: &ClipboardEntry| e@)
}

impl View for ClipboardHistory {
    type V = HistoryView;

    open spec fn view(&self) -> HistoryView {
        HistoryView { entries: entry_views(self.entries@), max_entries: self.max_entries as nat }
    }
}

/// The entries whose content differs from `content`, in their order.
pub open spec fn without_content(entries: Seq<EntryView>, content: Seq<char>) -> Seq<EntryView> {
    entries.filter(|e: EntryView| e.content != content)
}

/// The entries whose identifier differs from `id`, in their order.
pub open spec fn without_id(entries: Seq<EntryView>, id: Seq<char>) -> Seq<EntryView> {
    entries.filter(|e: EntryView| e.id != id)
}

/// The entries that answer a search for `query`, in their order; all of them
/// where the query is empty.
pub open spec fn search_results(entries: Seq<EntryView>, query: Seq<char>) -> Seq<EntryView> {
    if query.len() == 0 {
        entries
    } else {
        entries.filter(|e: EntryView| entry_matches(e, query))
    }
}

/// The index of the first entry with the given identifier.
pub open spec fn position_of_id(entries: Seq<EntryView>, id: Seq<char>) -> Option<int>
    decreases entries.len(),
{
    if entries.len() == 0 {
        None
    } else if entries[0].id == id {
        Some(0)
    } else {
        match position_of_id(entries.skip(1), id) {
            Some(i) => Some(i + 1),
            None => None,
        }
    }
}

/// The first `limit` of the given entries; all of them where they are no more.
pub open spec fn capped(entries: Seq<EntryView>, limit: nat) -> Seq<EntryView> {
    if entries.len() > limit {
        entries.take(limit as int)
    } else {
        entries
    }
}

/// The history after `entry` is added: entries with the same content give way,
/// the new entry comes first, and the oldest entries beyond the limit leave.
pub open spec fn with_entry(h: HistoryView, entry: EntryView) -> HistoryView {
    HistoryView {
        entries: capped(seq![entry] + without_content(h.entries, entry.content), h.max_entries),
        max_entries: h.max_entries,
    }
}

/// The history after a capture is recorded: the cleaned entry is added, and
/// after it the entry of the text as it was captured, unless cleaning left that
/// text as it was.
pub open spec fn with_capture(h: HistoryView, cleaned: EntryView, captured: EntryView) -> HistoryView {
    if captured.content != cleaned.content {
        with_entry(with_entry(h, cleaned), captured)
    } else {
        with_entry(h, cleaned)
    }
}

/// The limit of a history that was stored without one.
pub const DEFAULT_MAX_ENTRIES: usize = 10;

/// The limit of the history that is begun where the stored one cannot be read.
pub const FALLBACK_MAX_ENTRIES: usize = 100;

/// What a history keeps true of itself: its limit is positive, it holds no more
/// entries than the limit, and no two of its entries have the same content.
pub open spec fn well_formed(h: HistoryView) -> bool {
    &&& h.max_entries > 0
    &&& h.entries.len() <= h.max_entries
    &&& forall|i: int, j: int|
        0 <= i < j < h.entries.len() ==> h.entries[i].content != h.entries[j].content
}

impl ClipboardHistory {
    /// An empty history that holds up to `max_entries` entries.
    pub fn new(max_entries: usize) -> (h: Self)
        ensures
            h@.entries == Seq::<EntryView>::empty(),
            h@.max_entries == max_entries,
            max_entries > 0 ==> well_formed(h@),
    {
        let h = ClipboardHistory { entries: Vec::new(), max_entries };
        assert(h@.entries =~= Seq::<EntryView>::empty());
        h
    }

    /// The history that was stored as the given entries and limit. A limit of
    /// zero, as an older store may hold it, is replaced by the default.
    pub fn from_snapshot(entries: Vec<ClipboardEntry>, max_entries: usize) -> (h: Self)
        ensures
            h@.entries == entry_views(entries@),
            h@.max_entries == if max_entries == 0 {
                DEFAULT_MAX_ENTRIES
            } else {
                max_entries
            },
    {
        let max_entries = if max_entries == 0 {
            DEFAULT_MAX_ENTRIES
        } else {
            max_entries
        };
        ClipboardHistory { entries, max_entries }
    }

    /// Adds an entry as the most recent one. Entries with the same content are
    /// removed, and the oldest entries leave where the limit is exceeded.
    #[verifier::rlimit(40)]
    pub fn add_entry(&mut self, entry: ClipboardEntry)
        ensures
            final(self)@ == with_entry(old(self)@, entry@),
    {
        let ghost before = self.entries@;
        let ghost keep = |e: EntryView| e.content != entry@.content;
        let ghost mut k: int = 0;
        let mut i: usize = 0;
        proof {
            reveal(Seq::filter);
            assert(entry_views(before.take(0)) =~= Seq::<EntryView>::empty());
            assert(entry_views(self.entries@.take(0)) =~= Seq::<EntryView>::empty());
        }
        while i < self.entries.len()
            invariant
                0 <= i <= self.entries.len(),
                0 <= k <= before.len(),
                self.max_entries == old(self).max_entries,
                self.entries@.skip(i as int) == before.skip(k),
                entry_views(self.entries@.take(i as int)) == entry_views(before.take(k)).filter(
                    keep,
                ),
                keep == |e: EntryView| e.content != entry@.content,
            decreases self.entries.len() - i,
        {
            let ghost current = self.entries@;
            proof {
                assert(current.skip(i as int).len() > 0);
                assert(k < before.len());
                assert(current[i as int] == current.skip(i as int)[0]);
                assert(before[k] == before.skip(k)[0]);
                assert(entry_views(before.take(k + 1)) =~= entry_views(before.take(k)).push(
                    before[k]@,
                ));
                entry_views(before.take(k)).lemma_filter_push(before[k]@, keep);
            }
            if self.entries[i].content == entry.content {
                self.entries.remove(i);
                proof {
                    assert(self.entries@.skip(i as int) =~= current.skip(i as int).skip(1));
                    assert(before.skip(k).skip(1) =~= before.skip(k + 1));
                    assert(self.entries@.take(i as int) =~= current.take(i as int));
                    k = k + 1;
                }
            } else {
                proof {
                    assert(self.entries@.skip(i + 1) =~= current.skip(i as int).skip(1));
                    assert(before.skip(k).skip(1) =~= before.skip(k + 1));
                    assert(entry_views(current.take(i + 1)) =~= entry_views(
                        current.take(i as int),
                    ).push(current[i as int]@));
                    k = k + 1;
                }
                i += 1;
            }
        }
        proof {
            assert(self.entries@.take(i as int) == self.entries@);
            assert(before.skip(k).len() == 0);
            assert(before.take(k) == before);
        }
        let ghost filtered = self.entries@;
        self.entries.insert(0, entry);
        proof {
            assert(entry_views(self.entries@) =~= seq![entry@] + entry_views(filtered));
        }
        let ghost full = self.entries@;
        if self.entries.len() > self.max_entries {
            self.entries.truncate(self.max_entries);
            proof {
                assert(entry_views(self.entries@) =~= entry_views(full).take(
                    self.max_entries as int,
                ));
            }
        }
    }

    /// Records a text under a fresh identifier and the current time, as the most
    /// recent entry.
    pub fn record(&mut self, content: String, is_cleaned: bool, original_content: Option<String>)
        ensures
            exists|id: Seq<char>, timestamp: Timestamp|
                final(self)@ == with_entry(
                    old(self)@,
                    #[trigger] entry_for(
                        id,
                        timestamp,
                        content@,
                        is_cleaned,
                        option_view(original_content),
                    ),
                ),
    {
        let entry = ClipboardEntry::new(content, is_cleaned, original_content);
        self.add_entry(entry);
    }

    /// Adds the two entries of a capture: the cleaned one, and after it the
    /// captured one unless its content is that of the cleaned one.
    pub fn add_capture(&mut self, cleaned: ClipboardEntry, captured: ClipboardEntry)
        ensures
            final(self)@ == with_capture(old(self)@, cleaned@, captured@),
    {
        let differs = !(captured.content == cleaned.content);
        self.add_entry(cleaned);
        if differs {
            self.add_entry(captured);
        }
    }

    /// Records a capture under fresh identifiers and the current time: the
    /// cleaned text, which remembers the text as it was captured, and after it
    /// the captured text itself unless cleaning left it as it was.
    pub fn record_capture(&mut self, raw: String, cleaned: String)
        ensures
            exists|id: Seq<char>, timestamp: Timestamp, raw_id: Seq<char>, raw_timestamp: Timestamp|
                final(self)@ == with_capture(
                    old(self)@,
                    #[trigger] entry_for(id, timestamp, cleaned@, true, Some(raw@)),
                    #[trigger] entry_for(raw_id, raw_timestamp, raw@, false, None),
                ),
    {
        let captured_entry = ClipboardEntry::new(raw.clone(), false, None);
        let cleaned_entry = ClipboardEntry::new(cleaned, true, Some(raw));
        self.add_capture(cleaned_entry, captured_entry);
    }

    /// Removes every entry with the given identifier and tells whether there
    /// was one.
    #[verifier::rlimit(40)]
    pub fn remove_entry(&mut self, id: &str) -> (removed: bool)
        ensures
            final(self)@.entries == without_id(old(self)@.entries, id@),
            final(self)@.max_entries == old(self)@.max_entries,
            removed == (exists|i: int|
                0 <= i < old(self)@.entries.len() && (#[trigger] old(self)@.entries[i]).id
                    == id@),
    {
        let wanted = id.to_owned();
        let ghost before = self.entries@;
        let ghost keep = |e: EntryView| e.id != id@;
        let ghost mut k: int = 0;
        let mut removed = false;
        let mut i: usize = 0;
        proof {
            reveal(Seq::filter);
            assert(entry_views(before.take(0)) =~= Seq::<EntryView>::empty());
            assert(entry_views(self.entries@.take(0)) =~= Seq::<EntryView>::empty());
        }
        while i < self.entries.len()
            invariant
                0 <= i <= self.entries.len(),
                0 <= k <= before.len(),
                self.max_entries == old(self).max_entries,
                wanted@ == id@,
                self.entries@.skip(i as int) == before.skip(k),
                entry_views(self.entries@.take(i as int)) == entry_views(before.take(k)).filter(
                    keep,
                ),
                keep == |e: EntryView| e.id != id@,
                removed == (exists|j: int| 0 <= j < k && (#[trigger] before[j])@.id == id@),
            decreases self.entries.len() - i,
        {
            let ghost current = self.entries@;
            proof {
                assert(current.skip(i as int).len() > 0);
                assert(k < before.len());
                assert(current[i as int] == current.skip(i as int)[0]);
                assert(before[k] == before.skip(k)[0]);
                assert(entry_views(before.take(k + 1)) =~= entry_views(before.take(k)).push(
                    before[k]@,
                ));
                entry_views(before.take(k)).lemma_filter_push(before[k]@, keep);
            }
            if self.entries[i].id == wanted {
                self.entries.remove(i);
                removed = true;
                proof {
                    assert(self.entries@.skip(i as int) =~= current.skip(i as int).skip(1));
                    assert(before.skip(k).skip(1) =~= before.skip(k + 1));
                    assert(self.entries@.take(i as int) =~= current.take(i as int));
                    k = k + 1;
                }
            } else {
                proof {
                    assert(self.entries@.skip(i + 1) =~= current.skip(i as int).skip(1));
                    assert(before.skip(k).skip(1) =~= before.skip(k + 1));
                    assert(entry_views(current.take(i + 1)) =~= entry_views(
                        current.take(i as int),
                    ).push(current[i as int]@));
                    k = k + 1;
                }
                i += 1;
            }
        }
        proof {
            assert(self.entries@.take(i as int) == self.entries@);
            assert(before.skip(k).len() == 0);
            assert(before.take(k) == before);
            let views = entry_views(before);
            if removed {
                let j = choose|j: int| 0 <= j < k && (#[trigger] before[j])@.id == id@;
                assert(views[j].id == id@);
            } else {
                assert forall|j: int| 0 <= j < views.len() implies (#[trigger] views[j]).id
                    != id@ by {
                    assert(before[j]@.id != id@);
                }
            }
        }
        removed
    }

    /// Removes every entry.
    pub fn clear(&mut self)
        ensures
            final(self)@.entries == Seq::<EntryView>::empty(),
            final(self)@.max_entries == old(self)@.max_entries,
    {
        self.entries.clear();
        assert(self@.entries =~= Seq::<EntryView>::empty());
    }

    /// The entries, most recent first.
    pub fn get_entries(&self) -> (entries: &Vec<ClipboardEntry>)
        ensures
            entries == self.entries,
    {
        &self.entries
    }

    /// The entries that answer a search for `query`, most recent first; all of
    /// them where the query is empty.
    pub fn search(&self, query: &str) -> (found: Vec<&ClipboardEntry>)
        ensures
            borrowed_views(found@) == search_results(self@.entries, query@),
    {
        let n = self.entries.len();
        let everything = query.unicode_len() == 0;
        let ghost wanted = |e: EntryView| entry_matches(e, query@);
        let mut found: Vec<&ClipboardEntry> = Vec::new();
        let mut i: usize = 0;
        proof {
            reveal(Seq::filter);
            assert(borrowed_views(found@) =~= Seq::<EntryView>::empty());
            assert(entry_views(self.entries@.take(0)) =~= Seq::<EntryView>::empty());
        }
        while i < n
            invariant
                n == self.entries.len(),
                i <= n,
                everything == (query@.len() == 0),
                wanted == |e: EntryView| entry_matches(e, query@),
                everything ==> borrowed_views(found@) == entry_views(self.entries@.take(i as int)),
                !everything ==> borrowed_views(found@) == entry_views(
                    self.entries@.take(i as int),
                ).filter(wanted),
            decreases n - i,
        {
            let ghost so_far = found@;
            let entry = &self.entries[i];
            proof {
                assert(entry_views(self.entries@.take(i + 1)) =~= entry_views(
                    self.entries@.take(i as int),
                ).push(entry@));
                entry_views(self.entries@.take(i as int)).lemma_filter_push(entry@, wanted);
            }
            if everything || entry.matches_search(query) {
                found.push(entry);
                proof {
                    assert(borrowed_views(found@) =~= borrowed_views(so_far).push(entry@));
                }
            }
            i += 1;
        }
        proof {
            assert(self.entries@.take(n as int) == self.entries@);
        }
        found
    }

    /// The first entry with the given identifier.
    pub fn get_entry_by_id(&self, id: &str) -> (found: Option<&ClipboardEntry>)
        ensures
            match found {
                Some(e) => {
                    let at = position_of_id(self@.entries, id@);
                    at is Some && 0 <= at->0 < self.entries@.len() && *e == self.entries@[at->0]
                },
                None => position_of_id(self@.entries, id@) is None,
            },
    {
        let wanted = id.to_owned();
        let n = self.entries.len();
        let mut i: usize = 0;
        proof {
            assert(self@.entries.skip(0) == self@.entries);
        }
        while i < n
            invariant
                n == self.entries.len(),
                i <= n,
                wanted@ == id@,
                match position_of_id(self@.entries.skip(i as int), id@) {
                    Some(p) => position_of_id(self@.entries, id@) == Some(p + i),
                    None => position_of_id(self@.entries, id@) is None,
                },
            decreases n - i,
        {
            proof {
                assert(self@.entries.skip(i as int).skip(1) == self@.entries.skip(i + 1));
                assert(self@.entries.skip(i as int)[0] == self.entries@[i as int]@);
            }
            if self.entries[i].id == wanted {
                return Some(&self.entries[i]);
            }
            i += 1;
        }
        None
    }
}

} // verus!

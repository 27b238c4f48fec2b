//! What each command of the application does to the clipboard history. The
//! caller holds the history, locks it for the length of a command and stores it
//! after one that changed it.

use crate::entry::{entry_for, option_view, ClipboardEntry, EntryView, Timestamp};
use crate::history::{
    borrowed_views, entry_views, position_of_id, search_results, with_entry, without_id,
    ClipboardHistory,
};
use vstd::prelude::*;

verus! {

/// Why a command on the history came to nothing.
#[derive(Debug, Clone, Copy, PartialEq, Eq, Structural)]
pub enum HistoryError {
    /// The history holds no entry with the identifier that was asked for.
    EntryNotFound,
}

/// Copies of the given entries, in their order.
pub fn clone_entries(entries: &Vec<ClipboardEntry>) -> (copies: Vec<ClipboardEntry>)
    ensures
        entry_views(copies@) == entry_views(entries@),
{
    let mut copies: Vec<ClipboardEntry> = Vec::new();
    let mut i: usize = 0;
    while i < entries.len()
        invariant
            i <= entries.len(),
            entry_views(copies@) == entry_views(entries@.take(i as int)),
        decreases entries.len() - i,
    {
        let ghost before = copies@;
        copies.push(entries[i].clone());
        proof {
            assert(entry_views(copies@) =~= entry_views(before).push(entries@[i as int]@));
            assert(entry_views(entries@.take(i + 1)) =~= entry_views(entries@.take(i as int)).push(
                entries@[i as int]@,
            ));
        }
        i += 1;
    }
    proof {
        assert(entries@.take(entries@.len() as int) == entries@);
    }
    copies
}

/// Copies of all entries of the history, most recent first.
pub fn get_clipboard_history(history: &ClipboardHistory) -> (entries: Vec<ClipboardEntry>)
    ensures
        entry_views(entries@) == history@.entries,
{
    clone_entries(history.get_entries())
}

/// Records a text under a fresh identifier and the current time, as the most
/// recent entry of the history.
pub fn add_to_clipboard_history(
    history: &mut ClipboardHistory,
    content: String,
    is_cleaned: bool,
    original_content: Option<String>,
)
    ensures
        exists|id: Seq<char>, timestamp: Timestamp|
            final(history)@ == with_entry(
                old(history)@,
                #[trigger] entry_for(
                    id,
                    timestamp,
                    content@,
                    is_cleaned,
                    option_view(original_content),
                ),
            ),
{
    history.record(content, is_cleaned, original_content);
}

/// Removes the entries with the given identifier and tells whether there was
/// one.
pub fn remove_from_clipboard_history(history: &mut ClipboardHistory, id: &str) -> (removed: bool)
    ensures
        final(history)@.entries == without_id(old(history)@.entries, id@),
        final(history)@.max_entries == old(history)@.max_entries,
        removed == (position_of_id(old(history)@.entries, id@) is Some),
{
    proof {
        lemma_position_of_id(history@.entries, id@);
    }
    history.remove_entry(id)
}

/// Removes every entry of the history.
pub fn clear_clipboard_history(history: &mut ClipboardHistory)
    ensures
        final(history)@.entries == Seq::<EntryView>::empty(),
        final(history)@.max_entries == old(history)@.max_entries,
{
    history.clear();
}

/// Copies of the entries that answer a search for `query`, most recent first;
/// of all entries where the query is empty.
pub fn search_clipboard_history(history: &ClipboardHistory, query: &str) -> (found: Vec<
    ClipboardEntry,
>)
    ensures
        entry_views(found@) == search_results(history@.entries, query@),
{
    let hits = history.search(query);
    let mut found: Vec<ClipboardEntry> = Vec::new();
    let mut i: usize = 0;
    while i < hits.len()
        invariant
            i <= hits.len(),
            entry_views(found@) == borrowed_views(hits@.take(i as int)),
        decreases hits.len() - i,
    {
        let ghost before = found@;
        found.push(hits[i].clone());
        proof {
            assert(entry_views(found@) =~= entry_views(before).push(hits@[i as int]@));
            assert(borrowed_views(hits@.take(i + 1)) =~= borrowed_views(
                hits@.take(i as int),
            ).push(hits@[i as int]@));
        }
        i += 1;
    }
    proof {
        assert(hits@.take(hits@.len() as int) == hits@);
    }
    found
}

/// A copy of the first entry with the given identifier.
pub fn get_clipboard_entry_by_id(history: &ClipboardHistory, id: &str) -> (found: Option<
    ClipboardEntry,
>)
    ensures
        match position_of_id(history@.entries, id@) {
            Some(at) => found is Some && 0 <= at < history@.entries.len() && found->0@
                == history@.entries[at],
            None => found is None,
        },
{
    match history.get_entry_by_id(id) {
        Some(entry) => Some(entry.clone()),
        None => None,
    }
}

/// The text that is to be written to the clipboard when the entry with the
/// given identifier is pasted: the content of the first such entry. Where the
/// history holds none, the error says so.
pub fn paste_from_history(history: &ClipboardHistory, id: &str) -> (text: Result<
    String,
    HistoryError,
>)
    ensures
        match position_of_id(history@.entries, id@) {
            Some(at) => text is Ok && 0 <= at < history@.entries.len() && text->Ok_0@
                == history@.entries[at].content,
            None => text == Err::<String, HistoryError>(HistoryError::EntryNotFound),
        },
{
    match history.get_entry_by_id(id) {
        Some(entry) => Ok(entry.content.clone()),
        None => Err(HistoryError::EntryNotFound),
    }
}

/// An identifier has a position among the entries just where one of them
/// carries it, and that position is the first such.
pub proof fn lemma_position_of_id(entries: Seq<EntryView>, id: Seq<char>)
    ensures
        position_of_id(entries, id) is Some <==> exists|i: int|
            0 <= i < entries.len() && (#[trigger] entries[i]).id == id,
        position_of_id(entries, id) matches Some(at) ==> 0 <= at < entries.len() && entries[at].id
            == id && forall|i: int| 0 <= i < at ==> (#[trigger] entries[i]).id != id,
    decreases entries.len(),
{
    if entries.len() > 0 && entries[0].id != id {
        let rest = entries.skip(1);
        lemma_position_of_id(rest, id);
        if position_of_id(rest, id) is Some {
            let at = position_of_id(rest, id)->0;
            assert(entries[at + 1] == rest[at]);
            assert forall|i: int| 0 <= i < at + 1 implies (#[trigger] entries[i]).id != id by {
                if i > 0 {
                    assert(entries[i] == rest[i - 1]);
                }
            }
        } else {
            assert forall|i: int| 0 <= i < entries.len() implies (#[trigger] entries[i]).id
                != id by {
                if i > 0 {
                    assert(entries[i] == rest[i - 1]);
                }
            }
        }
    }
}

} // verus!

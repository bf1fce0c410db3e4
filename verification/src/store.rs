//! The two operations on the record that a server's block list is kept in.
//!
//! A record is the text of a block list; a server that never had a name
//! added has no record. Reading and writing records is the host's business:
//! it hands in the record as it found it (`None` where there is none) and
//! writes the new text that `append` hands back.

use crate::block_list::{
    append_status, appended, lemma_append_idempotent, lemma_append_keeps_distinct,
    lemma_append_once, lemma_distinct_occurrences, occurrences, AppendStatus, BlockList,
};
use crate::format::{
    all_newline_free, join_lines, lemma_lines_newline_free, lemma_lines_of_join,
    lemma_split_concat, lemma_split_of_join, lemma_split_pieces, lines, newline_free,
    split_lines, NEWLINE,
};
use vstd::prelude::*;

verus! {

/// The names that a record holds; where there is no record, none.
pub open spec fn stored_names(record: Option<Seq<char>>) -> Seq<Seq<char>> {
    match record {
        Some(text) => lines(text),
        None => Seq::empty(),
    }
}

/// The text that adding `name` hands to the host for writing: the text of
/// the list with the name at its end, or nothing where the record holds
/// the name already.
pub open spec fn written(record: Option<Seq<char>>, name: Seq<char>) -> Option<Seq<char>> {
    if stored_names(record).contains(name) {
        None
    } else {
        Some(join_lines(stored_names(record).push(name)))
    }
}

/// The record as it stands once `name` was added and the host has written
/// what it was handed.
pub open spec fn record_after(record: Option<Seq<char>>, name: Seq<char>) -> Option<Seq<char>> {
    match written(record, name) {
        Some(text) => Some(text),
        None => record,
    }
}

/// A name that a record can hold and give back: it is not empty and has no
/// newline in it.
pub open spec fn storable(name: Seq<char>) -> bool {
    name.len() > 0 && newline_free(name)
}

/// What adding a name to a record came to.
#[derive(Debug, PartialEq, Eq)]
pub struct Appended {
    /// Whether the name was added or was there already.
    pub status: AppendStatus,
    /// The new text of the record, for the host to write; `None` where the
    /// record stays as it is.
    pub record: Option<String>,
}

/// The block list that a record holds. A missing record is no error: it
/// holds the empty list.
pub fn load_all(record: Option<&str>) -> (list: BlockList)
    ensures
        list@ == stored_names(record.deep_view()),
        record is None ==> list@.len() == 0,
{
    match record {
        Some(text) => BlockList::parse(text),
        None => BlockList::new(),
    }
}

/// Adds `name` to the list that `record` holds. Where the name is on the
/// list already, nothing is to be written; else the outcome carries the
/// text of the list with the name as its last entry.
pub fn append(record: Option<&str>, name: &str) -> (outcome: Appended)
    ensures
        outcome.status == append_status(stored_names(record.deep_view()), name@),
        outcome.record.deep_view() == written(record.deep_view(), name@),
{
    let mut list = load_all(record);
    let status = list.append(name);
    match status {
        AppendStatus::Added => Appended { status, record: Some(list.render()) },
        AppendStatus::AlreadyPresent => Appended { status, record: None },
    }
}

/// A name that was added is read back: the record then holds the names it
/// held before, in their order, and, where the name is new, the name after
/// them. If no name stood twice in the record, none does afterwards, and
/// the added name stands in it exactly once.
pub proof fn lemma_append_then_load(record: Option<Seq<char>>, name: Seq<char>)
    requires
        storable(name),
    ensures
        stored_names(record_after(record, name)) == appended(stored_names(record), name),
        stored_names(record_after(record, name)).contains(name),
        stored_names(record).no_duplicates() ==> {
            &&& stored_names(record_after(record, name)).no_duplicates()
            &&& occurrences(stored_names(record_after(record, name)), name) == 1
        },
{
    let before = stored_names(record);
    lemma_append_idempotent(before, name);
    if !before.contains(name) {
        let after = before.push(name);
        assert(all_newline_free(after)) by {
            if record is Some {
                lemma_lines_newline_free(record->0);
            }
            assert forall|k: int| 0 <= k < after.len() implies newline_free(#[trigger] after[k]) by {
                if k < before.len() {
                    assert(after[k] == before[k]);
                }
            }
        }
        lemma_lines_of_join(after);
    }
    if before.no_duplicates() {
        lemma_append_keeps_distinct(before, name);
        lemma_distinct_occurrences(before, name);
        lemma_append_once(before, name);
    }
}

/// Adding a name a second time changes nothing: the second attempt reports
/// that the name is there already, hands the host nothing to write, and
/// leaves the record as the first attempt left it. If no name stood twice in
/// the record to begin with, the name then stands in it exactly once.
pub proof fn lemma_append_twice(record: Option<Seq<char>>, name: Seq<char>)
    requires
        storable(name),
    ensures
        append_status(stored_names(record_after(record, name)), name)
            == AppendStatus::AlreadyPresent,
        written(record_after(record, name), name) is None,
        record_after(record_after(record, name), name) == record_after(record, name),
        stored_names(record).no_duplicates() ==> occurrences(
            stored_names(record_after(record_after(record, name), name)),
            name,
        ) == 1,
{
    lemma_append_then_load(record, name);
}

/// Adding a name takes no name away: whatever is added, the names that the
/// record held are still there afterwards, in the same places.
pub proof fn lemma_append_never_removes(record: Option<Seq<char>>, name: Seq<char>)
    ensures
        stored_names(record).is_prefix_of(stored_names(record_after(record, name))),
{
    let before = stored_names(record);
    if !before.contains(name) && before.len() > 0 {
        let text = join_lines(before.push(name));
        lemma_lines_newline_free(record->0);
        lemma_split_of_join(before);
        lemma_split_concat(join_lines(before), name);
        lemma_split_pieces(name);
        assert(before.push(name).drop_last() =~= before);
        assert(text == join_lines(before) + seq![NEWLINE] + name);
        assert(split_lines(text) == before + split_lines(name));
        assert(before =~= lines(text).subrange(0, before.len() as int));
    }
}

} // verus!

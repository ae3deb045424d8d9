//! Trees of files and stores of patch records, held in memory.
//!
//! A tree is a list of entries; where two entries name the same path, the
//! earlier one counts.

use vstd::prelude::*;
use crate::content::{Content, ContentView};
use crate::text::same_text;

verus! {

/// One file of a tree: its path relative to the tree's root, and its content.
#[derive(Debug, Clone, PartialEq, Eq)]
pub struct FileEntry {
    pub path: String,
    pub content: Content,
}

/// The mathematical value of a [`FileEntry`].
pub struct EntryView {
    pub path: Seq<char>,
    pub content: ContentView,
}

impl View for FileEntry {
    type V = EntryView;

    open spec fn view(&self) -> EntryView {
        EntryView { path: self.path@, content: self.content@ }
    }
}

/// One patch record: the name it is stored under, and its unified diff.
#[derive(Debug, Clone, PartialEq, Eq)]
pub struct PatchRecord {
    pub name: String,
    pub text: String,
}

/// The mathematical value of a [`PatchRecord`].
pub struct RecordView {
    pub name: Seq<char>,
    pub text: Seq<char>,
}

impl View for PatchRecord {
    type V = RecordView;

    open spec fn view(&self) -> RecordView {
        RecordView { name: self.name@, text: self.text@ }
    }
}

/// The values of the entries of a list, in order.
pub open spec fn files_of(entries: Seq<FileEntry>) -> Seq<EntryView> {
    Seq::new(entries.len(), |i: int| entries[i]@)
}

/// The content that a list of entries holds for a path: that of the first
/// entry with this path.
pub open spec fn content_at(entries: Seq<FileEntry>, path: Seq<char>) -> Option<ContentView>
    decreases entries.len(),
{
    if entries.len() == 0 {
        None
    } else if entries[0].path@ == path {
        Some(entries[0].content@)
    } else {
        content_at(entries.drop_first(), path)
    }
}

/// The tree that a list of entries stands for.
pub open spec fn tree_of(entries: Seq<FileEntry>) -> Map<Seq<char>, ContentView> {
    Map::new(
        |path: Seq<char>| content_at(entries, path) is Some,
        |path: Seq<char>| content_at(entries, path)->0,
    )
}

/// The diff that a list of records holds under a name: that of the first
/// record with this name.
pub open spec fn record_at(records: Seq<PatchRecord>, name: Seq<char>) -> Option<Seq<char>>
    decreases records.len(),
{
    if records.len() == 0 {
        None
    } else if records[0].name@ == name {
        Some(records[0].text@)
    } else {
        record_at(records.drop_first(), name)
    }
}

/// The patch store that a list of records stands for.
pub open spec fn records_of(records: Seq<PatchRecord>) -> Map<Seq<char>, Seq<char>> {
    Map::new(
        |name: Seq<char>| record_at(records, name) is Some,
        |name: Seq<char>| record_at(records, name)->0,
    )
}

/// Looks up the content stored for `path`.
pub fn find_content<'a>(entries: &'a Vec<FileEntry>, path: &str) -> (r: Option<&'a Content>)
    ensures
        match r {
            Some(c) => tree_of(entries@).get(path@) == Some(c@),
            None => tree_of(entries@).get(path@) is None,
        },
{
    let mut i: usize = 0;
    assert(entries@.skip(0) == entries@);
    while i < entries.len()
        invariant
            i <= entries.len(),
            content_at(entries@, path@) == content_at(entries@.skip(i as int), path@),
        decreases entries.len() - i,
    {
        proof {
            assert(entries@.skip(i as int).drop_first() == entries@.skip(i as int + 1));
        }
        if same_text(entries[i].path.as_str(), path) {
            return Some(&entries[i].content);
        }
        i += 1;
    }
    None
}

/// Looks up the diff stored under `name`.
pub fn find_record<'a>(records: &'a Vec<PatchRecord>, name: &str) -> (r: Option<&'a String>)
    ensures
        match r {
            Some(t) => records_of(records@).get(name@) == Some(t@),
            None => records_of(records@).get(name@) is None,
        },
{
    let mut i: usize = 0;
    assert(records@.skip(0) == records@);
    while i < records.len()
        invariant
            i <= records.len(),
            record_at(records@, name@) == record_at(records@.skip(i as int), name@),
        decreases records.len() - i,
    {
        proof {
            assert(records@.skip(i as int).drop_first() == records@.skip(i as int + 1));
        }
        if same_text(records[i].name.as_str(), name) {
            return Some(&records[i].text);
        }
        i += 1;
    }
    None
}

} // verus!

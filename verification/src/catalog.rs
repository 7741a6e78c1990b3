//! The catalog of known games.

use vstd::prelude::*;
use crate::text::{lower, to_lower_string};

verus! {

/// One game of the catalog, with the digests of its known images.
#[derive(Clone, Debug)]
pub struct CatalogEntry {
    pub id: u32,
    pub title: String,
    pub console_id: u32,
    pub hashes: Vec<String>,
}

/// A catalog entry as the contracts speak of it.
pub struct CatalogEntryView {
    pub id: u32,
    pub title: Seq<char>,
    pub console_id: u32,
    pub hashes: Seq<Seq<char>>,
}

impl DeepView for CatalogEntry {
    type V = CatalogEntryView;

    open spec fn deep_view(&self) -> CatalogEntryView {
        CatalogEntryView {
            id: self.id,
            title: self.title@,
            console_id: self.console_id,
            hashes: self.hashes.deep_view(),
        }
    }
}

/// The titles of the entries, in their order, each with its ASCII capital
/// letters folded to lower case.
pub open spec fn folded_titles_of(entries: Seq<CatalogEntryView>) -> Seq<Seq<char>> {
    Seq::new(entries.len(), |i: int| lower(entries[i].title))
}

/// The first entry at or after `from` whose title is exactly `title`.
pub open spec fn first_with_title(
    entries: Seq<CatalogEntryView>,
    title: Seq<char>,
    from: int,
) -> Option<int>
    decreases entries.len() - from,
{
    if from < 0 || from >= entries.len() {
        None
    } else if entries[from].title == title {
        Some(from)
    } else {
        first_with_title(entries, title, from + 1)
    }
}

/// What `first_with_title` finds is the first entry with exactly the title,
/// and it finds none only where no entry has it.
pub proof fn lemma_first_with_title(entries: Seq<CatalogEntryView>, title: Seq<char>, from: int)
    requires
        0 <= from,
    ensures
        match first_with_title(entries, title, from) {
            Some(index) => from <= index < entries.len() && entries[index].title == title
                && forall|k: int| from <= k < index ==> entries[k].title != title,
            None => forall|k: int| from <= k < entries.len() ==> entries[k].title != title,
        },
    decreases entries.len() - from,
{
    if from < entries.len() && entries[from].title != title {
        lemma_first_with_title(entries, title, from + 1);
    }
}

impl CatalogEntry {
    /// An entry with the given fields.
    pub fn new(id: u32, title: String, console_id: u32, hashes: Vec<String>) -> (entry:
        CatalogEntry)
        ensures
            entry.id == id,
            entry.title == title,
            entry.console_id == console_id,
            entry.hashes == hashes,
    {
        CatalogEntry { id, title, console_id, hashes }
    }

    /// Whether `hash` is one of the entry's known digests.
    pub fn has_hash(&self, hash: &str) -> (known: bool)
        ensures
            known == self.deep_view().hashes.contains(hash@),
    {
        let wanted = hash.to_string();
        let mut i: usize = 0;
        while i < self.hashes.len()
            invariant
                i <= self.hashes.len(),
                wanted@ == hash@,
                forall|k: int| 0 <= k < i ==> self.deep_view().hashes[k] != hash@,
            decreases self.hashes.len() - i,
        {
            if self.hashes[i] == wanted {
                assert(self.deep_view().hashes[i as int] == hash@);
                return true;
            }
            i += 1;
        }
        false
    }
}

/// The titles of the entries, in their order, each folded to lower case.
pub fn folded_titles(entries: &Vec<CatalogEntry>) -> (all: Vec<String>)
    ensures
        all.deep_view() == folded_titles_of(entries.deep_view()),
{
    let mut all: Vec<String> = Vec::new();
    let mut i: usize = 0;
    while i < entries.len()
        invariant
            i <= entries.len(),
            all@.len() == i,
            forall|k: int| 0 <= k < i ==> all@[k]@ == lower(entries@[k].title@),
        decreases entries.len() - i,
    {
        all.push(to_lower_string(entries[i].title.as_str()));
        i += 1;
    }
    assert(all.deep_view() =~= folded_titles_of(entries.deep_view()));
    all
}

/// The index of the first entry whose title is exactly `title`.
pub fn find_title(entries: &Vec<CatalogEntry>, title: &str) -> (found: Option<usize>)
    ensures
        match found {
            Some(index) => index < entries.len() && first_with_title(
                entries.deep_view(),
                title@,
                0,
            ) == Some(index as int),
            None => first_with_title(entries.deep_view(), title@, 0) is None,
        },
{
    let wanted = title.to_string();
    let mut i: usize = 0;
    while i < entries.len()
        invariant
            i <= entries.len(),
            wanted@ == title@,
            first_with_title(entries.deep_view(), title@, 0) == first_with_title(
                entries.deep_view(),
                title@,
                i as int,
            ),
        decreases entries.len() - i,
    {
        assert(entries.deep_view()[i as int].title == entries@[i as int].title@);
        if entries[i].title == wanted {
            return Some(i);
        }
        i += 1;
    }
    None
}

} // verus!

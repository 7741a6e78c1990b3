//! One discovered file on its way through the pipeline: classified, matched
//! by title, hashed, confirmed.

use vstd::prelude::*;
use crate::catalog::{CatalogEntry, CatalogEntryView};
use crate::matcher::{confirm_hash, hash_confirms, match_title, title_match};
use crate::rom_hashes::{compute_hash, digest_of, is_digest_text};
use crate::system::{determine_rom_system, system_of_file, System};

verus! {

/// A file under consideration and what is known of it.
#[derive(Clone, Debug)]
pub struct Rom {
    pub file_name: String,
    pub path: String,
    /// The console family, absent where the file could not be classified.
    pub system: Option<System>,
    /// The digest of the image, absent where it was not or could not be
    /// computed.
    pub hash: Option<String>,
    /// The index of the matched entry in the catalog of the file's system.
    pub matched_game: Option<usize>,
    /// Whether the digest is one of the matched entry's digests.
    pub hash_matches: bool,
}

/// What is reported of one file.
#[derive(Clone, Debug)]
pub struct ResultRecord {
    pub file_name: String,
    pub detected_system: Option<System>,
    pub matched_title: Option<String>,
    pub matched_id: Option<u32>,
    pub match_confirmed: bool,
}

/// The digest of an image whose bytes may not have been had: absent without
/// the bytes, and absent where hashing fails.
pub open spec fn computed_hash(
    path: Seq<char>,
    contents: Option<Seq<u8>>,
    system: System,
) -> Option<Seq<char>> {
    match contents {
        Some(bytes) => match digest_of(path, bytes, system) {
            Ok(digest) => Some(digest),
            Err(_) => None,
        },
        None => None,
    }
}

/// The bytes of a file as the contracts speak of them.
pub open spec fn contents_view(contents: Option<Vec<u8>>) -> Option<Seq<u8>> {
    match contents {
        Some(bytes) => Some(bytes@),
        None => None,
    }
}

impl Rom {
    /// The digest as the contracts speak of it.
    pub open spec fn hash_view(&self) -> Option<Seq<char>> {
        match self.hash {
            Some(digest) => Some(digest@),
            None => None,
        }
    }

    /// The record is consistent with the catalog of its system: a matched
    /// entry is one of the catalog; a confirmed digest is present and is one
    /// of the matched entry's digests; a file without a system has neither a
    /// digest nor a match.
    pub open spec fn wf(&self, entries: Seq<CatalogEntryView>) -> bool {
        &&& self.matched_game matches Some(index) ==> index < entries.len()
        &&& self.hash_matches ==> self.matched_game is Some && hash_confirms(
            self.hash_view(),
            entries[self.matched_game->0 as int].hashes,
        )
        &&& self.hash is Some ==> self.matched_game is Some
        &&& self.system is None ==> self.matched_game is None
    }

    /// The record is what matching, hashing and confirmation give for a
    /// file of `system` with these bytes against these entries.
    pub open spec fn is_outcome_of(
        &self,
        system: System,
        contents: Option<Seq<u8>>,
        entries: Seq<CatalogEntryView>,
    ) -> bool {
        match title_match(self.file_name@, entries) {
            None => self.is_fresh(),
            Some(index) => {
                &&& self.matched_game == Some(index as usize)
                &&& self.hash_view() == computed_hash(self.path@, contents, system)
                &&& self.hash_matches == hash_confirms(self.hash_view(), entries[index].hashes)
            },
        }
    }

    /// Nothing but the file and its system is known yet.
    pub open spec fn is_fresh(&self) -> bool {
        self.hash is None && self.matched_game is None && !self.hash_matches
    }

    /// The record of a file that was discovered and classified, before it is
    /// matched.
    pub fn new(path: &str, file_name: &str, system: Option<System>) -> (rom: Rom)
        ensures
            rom.path@ == path@,
            rom.file_name@ == file_name@,
            rom.system == system,
            rom.is_fresh(),
    {
        Rom {
            file_name: file_name.to_string(),
            path: path.to_string(),
            system,
            hash: None,
            matched_game: None,
            hash_matches: false,
        }
    }

    /// The entry of the catalog that the file name matches. A file without a
    /// system is matched against nothing.
    pub fn find_match(&self, entries: &Vec<CatalogEntry>) -> (found: Option<usize>)
        ensures
            self.system is None ==> found is None,
            self.system is Some ==> match found {
                Some(index) => index < entries.len() && title_match(
                    self.file_name@,
                    entries.deep_view(),
                ) == Some(index as int),
                None => title_match(self.file_name@, entries.deep_view()) is None,
            },
    {
        match self.system {
            Some(_) => match_title(self.file_name.as_str(), entries),
            None => None,
        }
    }

    /// Records that the file matches the entry at `entry`, computes the
    /// digest from the file's bytes where they could be had, and says whether
    /// the digest confirms the match. The match stands without a digest.
    pub fn record_match(
        &mut self,
        entry: usize,
        contents: Option<Vec<u8>>,
        entries: &Vec<CatalogEntry>,
    )
        requires
            entry < entries.len(),
            old(self).system is Some,
        ensures
            final(self).file_name == old(self).file_name,
            final(self).path == old(self).path,
            final(self).system == old(self).system,
            final(self).matched_game == Some(entry),
            final(self).hash_view() == computed_hash(
                old(self).path@,
                contents_view(contents),
                old(self).system->0,
            ),
            final(self).hash matches Some(digest) ==> is_digest_text(digest@),
            final(self).hash_matches == hash_confirms(
                final(self).hash_view(),
                entries.deep_view()[entry as int].hashes,
            ),
            final(self).wf(entries.deep_view()),
    {
        let system = self.system.unwrap();
        self.matched_game = Some(entry);
        self.hash = match contents {
            Some(bytes) => match compute_hash(self.path.as_str(), bytes, system) {
                Ok(digest) => Some(digest),
                Err(_) => None,
            },
            None => None,
        };
        self.hash_matches = match &self.hash {
            Some(digest) => confirm_hash(Some(digest.as_str()), &entries[entry]),
            None => false,
        };
    }

    /// What is reported of the file against the catalog of its system. The
    /// matched title and id are those of the matched entry; they are absent
    /// where nothing was matched, or where `entries` is not the catalog that
    /// the file was matched against and holds no entry at the matched index.
    pub fn report(&self, entries: &Vec<CatalogEntry>) -> (record: ResultRecord)
        ensures
            record.file_name@ == self.file_name@,
            record.detected_system == self.system,
            record.match_confirmed == self.hash_matches,
            match self.matched_game {
                Some(index) if index < entries.len() => {
                    &&& record.matched_title matches Some(title) && title@
                        == entries.deep_view()[index as int].title
                    &&& record.matched_id == Some(entries.deep_view()[index as int].id)
                },
                _ => record.matched_title is None && record.matched_id is None,
            },
    {
        let (matched_title, matched_id) = match self.matched_game {
            Some(index) if index < entries.len() => {
                assert(entries.deep_view()[index as int] == entries@[index as int].deep_view());
                (Some(entries[index].title.clone()), Some(entries[index].id))
            },
            _ => (None, None),
        };
        ResultRecord {
            file_name: self.file_name.clone(),
            detected_system: self.system,
            matched_title,
            matched_id,
            match_confirmed: self.hash_matches,
        }
    }
}

/// Runs one file through matching, hashing and confirmation. `contents` are
/// the bytes of the file, absent where they could not be read; `entries` is
/// the catalog of the file's system. A file without a system is neither
/// matched nor hashed; a file whose name matches no title is not hashed.
pub fn identify_rom(
    path: &str,
    file_name: &str,
    system: Option<System>,
    contents: Option<Vec<u8>>,
    entries: &Vec<CatalogEntry>,
) -> (rom: Rom)
    ensures
        rom.path@ == path@,
        rom.file_name@ == file_name@,
        rom.system == system,
        rom.wf(entries.deep_view()),
        rom.hash matches Some(digest) ==> is_digest_text(digest@),
        match system {
            None => rom.is_fresh(),
            Some(detected) => rom.is_outcome_of(
                detected,
                contents_view(contents),
                entries.deep_view(),
            ),
        },
{
    let mut rom = Rom::new(path, file_name, system);
    match rom.find_match(entries) {
        Some(index) => {
            rom.record_match(index, contents, entries);
        },
        None => {},
    }
    rom
}

/// The catalog of one system.
#[derive(Clone, Debug)]
pub struct SystemCatalog {
    pub system: System,
    pub entries: Vec<CatalogEntry>,
}

impl DeepView for SystemCatalog {
    type V = (System, Seq<CatalogEntryView>);

    open spec fn deep_view(&self) -> (System, Seq<CatalogEntryView>) {
        (self.system, self.entries.deep_view())
    }
}

/// The first catalog at or after `from` that is the system's.
pub open spec fn catalog_of(
    catalogs: Seq<(System, Seq<CatalogEntryView>)>,
    system: System,
    from: int,
) -> Option<int>
    decreases catalogs.len() - from,
{
    if from < 0 || from >= catalogs.len() {
        None
    } else if catalogs[from].0 == system {
        Some(from)
    } else {
        catalog_of(catalogs, system, from + 1)
    }
}

/// The index of the first catalog that is the system's.
pub fn find_catalog(catalogs: &Vec<SystemCatalog>, system: System) -> (found: Option<usize>)
    ensures
        match found {
            Some(index) => index < catalogs.len() && catalogs@[index as int].system == system
                && catalog_of(catalogs.deep_view(), system, 0) == Some(index as int),
            None => catalog_of(catalogs.deep_view(), system, 0) is None,
        },
{
    let mut i: usize = 0;
    while i < catalogs.len()
        invariant
            i <= catalogs.len(),
            catalog_of(catalogs.deep_view(), system, 0) == catalog_of(
                catalogs.deep_view(),
                system,
                i as int,
            ),
        decreases catalogs.len() - i,
    {
        if catalogs[i].system == system {
            return Some(i);
        }
        i += 1;
    }
    None
}

/// Runs one file through the whole pipeline: classifies it, and where it
/// has a system with a catalog, matches it by title, hashes it and confirms
/// the match. `contents` are the bytes of the file. A matched entry is
/// always one of the catalog of the file's system.
pub fn process_file(
    path: &str,
    file_name: &str,
    contents: Vec<u8>,
    catalogs: &Vec<SystemCatalog>,
) -> (rom: Rom)
    ensures
        rom.path@ == path@,
        rom.file_name@ == file_name@,
        rom.system == system_of_file(path@, contents@),
        rom.hash matches Some(digest) ==> is_digest_text(digest@),
        match rom.system {
            None => rom.is_fresh(),
            Some(system) => match catalog_of(catalogs.deep_view(), system, 0) {
                None => rom.is_fresh(),
                Some(index) => rom.wf(catalogs.deep_view()[index].1) && rom.is_outcome_of(
                    system,
                    Some(contents@),
                    catalogs.deep_view()[index].1,
                ),
            },
        },
{
    let system = determine_rom_system(path, contents.as_slice());
    let detected = match system {
        Some(detected) => detected,
        None => {
            return Rom::new(path, file_name, None);
        },
    };
    match find_catalog(catalogs, detected) {
        Some(index) => {
            identify_rom(path, file_name, system, Some(contents), &catalogs[index].entries)
        },
        None => Rom::new(path, file_name, system),
    }
}

} // verus!

//! The console families the library knows, with their file extensions and
//! catalog names.

use vstd::prelude::*;
use vstd::slice::slice_subrange;
use crate::archive::{list_archive, names_of, zip_entries};
use crate::text::{
    after_last, find_last, last_index_of, lemma_last_index_is, lemma_last_index_of, lower,
    lowered_equals, to_chars,
};

verus! {

/// A supported console family.
#[derive(Clone, Copy, Debug, PartialEq, Eq, Hash, Structural)]
pub enum System {
    NDS,
    GBA,
    GBC,
    GB,
    WonderSwan,
}

/// The systems in enumeration order.
pub open spec fn all_systems() -> Seq<System> {
    seq![System::NDS, System::GBA, System::GBC, System::GB, System::WonderSwan]
}

/// The file extensions, in lower case, by which a system's images are known.
pub open spec fn extensions_of(system: System) -> Seq<Seq<char>> {
    match system {
        System::NDS => seq![seq!['n', 'd', 's']],
        System::GBA => seq![seq!['g', 'b', 'a']],
        System::GBC => seq![seq!['g', 'b', 'c']],
        System::GB => seq![seq!['g', 'b']],
        System::WonderSwan => seq![seq!['w', 's'], seq!['w', 's', 'c']],
    }
}

/// The name under which the catalog knows a system.
pub open spec fn ra_name_of(system: System) -> Seq<char> {
    match system {
        System::NDS => "Nintendo DS"@,
        System::GBA => "Game Boy Advance"@,
        System::GB => "Game Boy"@,
        System::GBC => "Game Boy Color"@,
        System::WonderSwan => "WonderSwan"@,
    }
}

/// `lowered` is one of the system's extensions.
pub open spec fn has_extension(system: System, lowered: Seq<char>) -> bool {
    extensions_of(system).contains(lowered)
}

/// The system that an extension stands for, whatever its case: the first in
/// enumeration order whose extensions hold it.
pub open spec fn system_of_extension(extension: Seq<char>) -> Option<System> {
    let lowered = lower(extension);
    if has_extension(System::NDS, lowered) {
        Some(System::NDS)
    } else if has_extension(System::GBA, lowered) {
        Some(System::GBA)
    } else if has_extension(System::GBC, lowered) {
        Some(System::GBC)
    } else if has_extension(System::GB, lowered) {
        Some(System::GB)
    } else if has_extension(System::WonderSwan, lowered) {
        Some(System::WonderSwan)
    } else {
        None
    }
}

/// What the extension of a path says about the file.
#[derive(Clone, Copy, Debug, PartialEq, Eq, Hash, Structural)]
pub enum PathKind {
    /// The extension is one of this system's.
    Image(System),
    /// The extension is that of an archive, whose entries decide.
    Archive,
    /// The path has no extension, or one that stands for nothing.
    Other,
}

/// The extension of an archive.
pub open spec fn archive_extension() -> Seq<char> {
    seq!['z', 'i', 'p']
}

/// The extension of a path: what follows the last dot of its final
/// component, the components being separated by `/`. A final component
/// without a dot, or whose only dot is its first character, has none.
pub open spec fn path_extension(path: Seq<char>) -> Option<Seq<char>> {
    let name = after_last(path, '/');
    match last_index_of(name, '.') {
        Some(dot) => if dot == 0 {
            None
        } else {
            Some(name.subrange(dot + 1, name.len() as int))
        },
        None => None,
    }
}

/// What the extension of `path` says about the file.
pub open spec fn kind_of_path(path: Seq<char>) -> PathKind {
    match path_extension(path) {
        None => PathKind::Other,
        Some(extension) => match system_of_extension(extension) {
            Some(system) => PathKind::Image(system),
            None => if lower(extension) == archive_extension() {
                PathKind::Archive
            } else {
                PathKind::Other
            },
        },
    }
}

/// The extension of an entry's name inside an archive: what follows its
/// last dot. A name without a dot has none.
pub open spec fn inner_extension(name: Seq<char>) -> Option<Seq<char>> {
    match last_index_of(name, '.') {
        Some(dot) => Some(name.subrange(dot + 1, name.len() as int)),
        None => None,
    }
}

/// The system that an archive entry stands for, by the extension of its
/// name. An entry without a name, or whose name has no extension, stands for
/// none.
pub open spec fn system_of_name(name: Option<Seq<char>>) -> Option<System> {
    match name {
        Some(text) => match inner_extension(text) {
            Some(extension) => system_of_extension(extension),
            None => None,
        },
        None => None,
    }
}

/// The system of the first name, at or after `from`, that stands for one.
pub open spec fn system_in_names(names: Seq<Option<Seq<char>>>, from: int) -> Option<System>
    decreases names.len() - from,
{
    if from < 0 || from >= names.len() {
        None
    } else if system_of_name(names[from]) is Some {
        system_of_name(names[from])
    } else {
        system_in_names(names, from + 1)
    }
}

/// The system that the entries of an archive stand for; none where the
/// bytes encode no archive.
pub open spec fn system_in_archive(contents: Seq<u8>) -> Option<System> {
    match zip_entries(contents) {
        Some(entries) => system_in_names(names_of(entries), 0),
        None => None,
    }
}

/// The system of the file at `path` with the bytes `contents`: what the
/// extension says, and only for an archive what its entries say.
pub open spec fn system_of_file(path: Seq<char>, contents: Seq<u8>) -> Option<System> {
    match kind_of_path(path) {
        PathKind::Image(system) => Some(system),
        PathKind::Archive => system_in_archive(contents),
        PathKind::Other => None,
    }
}

/// The systems in enumeration order.
pub fn systems() -> (all: Vec<System>)
    ensures
        all@ == all_systems(),
{
    vec![System::NDS, System::GBA, System::GBC, System::GB, System::WonderSwan]
}

/// The file extensions, in lower case, by which a system's images are known.
pub fn get_system_file_extension(system: System) -> (extensions: Vec<String>)
    ensures
        extensions@.len() == extensions_of(system).len(),
        forall|i: int| 0 <= i < extensions@.len() ==> extensions@[i]@ == extensions_of(system)[i],
{
    proof {
        reveal_strlit("nds");
        reveal_strlit("gba");
        reveal_strlit("gbc");
        reveal_strlit("gb");
        reveal_strlit("ws");
        reveal_strlit("wsc");
    }
    let mut extensions: Vec<String> = Vec::new();
    match system {
        System::NDS => {
            extensions.push("nds".to_string());
        },
        System::GBA => {
            extensions.push("gba".to_string());
        },
        System::GBC => {
            extensions.push("gbc".to_string());
        },
        System::GB => {
            extensions.push("gb".to_string());
        },
        System::WonderSwan => {
            extensions.push("ws".to_string());
            extensions.push("wsc".to_string());
        },
    }
    assert(forall|i: int|
        0 <= i < extensions@.len() ==> extensions@[i]@ =~= extensions_of(system)[i]);
    extensions
}

/// The name under which the catalog knows a system.
pub fn get_system_ra_name(system: System) -> (name: &'static str)
    ensures
        name@ == ra_name_of(system),
{
    match system {
        System::NDS => "Nintendo DS",
        System::GBA => "Game Boy Advance",
        System::GB => "Game Boy",
        System::GBC => "Game Boy Color",
        System::WonderSwan => "WonderSwan",
    }
}

/// Whether `extension`, taken in lower case, is one of the system's
/// extensions.
pub fn system_has_extension(system: System, extension: &[char]) -> (known: bool)
    ensures
        known == has_extension(system, lower(extension@)),
{
    let extensions = get_system_file_extension(system);
    let mut i: usize = 0;
    while i < extensions.len()
        invariant
            i <= extensions.len(),
            extensions@.len() == extensions_of(system).len(),
            forall|k: int|
                0 <= k < extensions@.len() ==> extensions@[k]@ == extensions_of(system)[k],
            forall|k: int| 0 <= k < i ==> extensions_of(system)[k] != lower(extension@),
        decreases extensions.len() - i,
    {
        let candidate = to_chars(extensions[i].as_str());
        if lowered_equals(extension, candidate.as_slice()) {
            assert(extensions_of(system)[i as int] == lower(extension@));
            return true;
        }
        i += 1;
    }
    false
}

/// The system that an extension stands for, whatever its case.
pub fn system_for_extension(extension: &[char]) -> (system: Option<System>)
    ensures
        system == system_of_extension(extension@),
{
    let all = systems();
    let mut i: usize = 0;
    while i < all.len()
        invariant
            i <= all.len(),
            all@ == all_systems(),
            forall|k: int| 0 <= k < i ==> !has_extension(all_systems()[k], lower(extension@)),
        decreases all.len() - i,
    {
        if system_has_extension(all[i], extension) {
            return Some(all[i]);
        }
        i += 1;
    }
    None
}

/// What follows the last `c` in `text`; all of `text` where it holds no `c`.
fn tail_after_last(text: &[char], c: char) -> (tail: &[char])
    ensures
        tail@ == after_last(text@, c),
{
    match find_last(text, c) {
        Some(i) => slice_subrange(text, i + 1, text.len()),
        None => text,
    }
}

/// What the extension of `file_path` says about the file. The file itself
/// is not looked at.
pub fn classify_path(file_path: &str) -> (kind: PathKind)
    ensures
        kind == kind_of_path(file_path@),
{
    let path = to_chars(file_path);
    let name = tail_after_last(path.as_slice(), '/');
    let dot = match find_last(name, '.') {
        Some(dot) => dot,
        None => {
            return PathKind::Other;
        },
    };
    if dot == 0 {
        return PathKind::Other;
    }
    let extension = slice_subrange(name, dot + 1, name.len());
    match system_for_extension(extension) {
        Some(system) => PathKind::Image(system),
        None => {
            let archive: Vec<char> = vec!['z', 'i', 'p'];
            if lowered_equals(extension, archive.as_slice()) {
                PathKind::Archive
            } else {
                PathKind::Other
            }
        },
    }
}

/// The system that the names of an archive's entries stand for: that of the
/// first name, in the order of the listing, whose extension is one of a
/// system.
pub fn classify_names(names: &Vec<Option<String>>) -> (system: Option<System>)
    ensures
        system == system_in_names(names.deep_view(), 0),
{
    let mut index: usize = 0;
    while index < names.len()
        invariant
            index <= names.len(),
            system_in_names(names.deep_view(), 0) == system_in_names(
                names.deep_view(),
                index as int,
            ),
        decreases names.len() - index,
    {
        assert(names.deep_view()[index as int] == names@[index as int].deep_view());
        match &names[index] {
            Some(name) => {
                let name_chars = to_chars(name.as_str());
                match find_last(name_chars.as_slice(), '.') {
                    Some(dot) => {
                        let extension = slice_subrange(
                            name_chars.as_slice(),
                            dot + 1,
                            name_chars.len(),
                        );
                        match system_for_extension(extension) {
                            Some(system) => {
                                return Some(system);
                            },
                            None => {},
                        }
                    },
                    None => {},
                }
            },
            None => {},
        }
        index += 1;
    }
    None
}

/// The system that the entries of an archive stand for. `contents` are the
/// bytes of the archive; bytes that encode no archive stand for none.
pub fn classify_archive(contents: &[u8]) -> (system: Option<System>)
    ensures
        system == system_in_archive(contents@),
{
    match list_archive(contents) {
        Some(names) => classify_names(&names),
        None => None,
    }
}

/// The system of the file at `file_path`, whose bytes are `contents`. The
/// extension decides where it is one of a system; the bytes are looked at
/// only where the extension is that of an archive.
pub fn determine_rom_system(file_path: &str, contents: &[u8]) -> (system: Option<System>)
    ensures
        system == system_of_file(file_path@, contents@),
{
    match classify_path(file_path) {
        PathKind::Image(system) => Some(system),
        PathKind::Archive => classify_archive(contents),
        PathKind::Other => None,
    }
}

/// A path made of a stem that does not end in `/`, a dot and an extension
/// without dots and slashes has that extension.
pub proof fn lemma_extension_of_path(stem: Seq<char>, extension: Seq<char>)
    requires
        stem.len() > 0,
        stem.last() != '/',
        !extension.contains('.'),
        !extension.contains('/'),
    ensures
        path_extension(stem + seq!['.'] + extension) == Some(extension),
{
    let path = stem + seq!['.'] + extension;
    let dot_in_path = stem.len() as int;
    assert forall|j: int| dot_in_path < j < path.len() implies path[j] != '.' && path[j] != '/' by {
        assert(path[j] == extension[j - dot_in_path - 1]);
    }
    lemma_last_index_of(path, '/');
    let start: int = match last_index_of(path, '/') {
        Some(slash) => slash + 1,
        None => 0,
    };
    assert(start < dot_in_path) by {
        assert(path[dot_in_path - 1] == stem.last());
    }
    let name = after_last(path, '/');
    let dot = dot_in_path - start;
    assert forall|j: int| dot < j < name.len() implies name[j] != '.' by {
        assert(name[j] == path[j + start]);
    }
    lemma_last_index_is(name, '.', dot);
}

/// The extensions of the systems are made of lower-case letters.
proof fn lemma_extensions_are_letters(system: System, i: int, j: int)
    requires
        0 <= i < extensions_of(system).len(),
        0 <= j < extensions_of(system)[i].len(),
    ensures
        'a' <= extensions_of(system)[i][j] <= 'z',
{
}

/// An extension that stands for a system holds neither a dot nor a slash.
proof fn lemma_known_extension_is_plain(extension: Seq<char>)
    requires
        system_of_extension(extension) is Some,
    ensures
        !extension.contains('.'),
        !extension.contains('/'),
{
    let lowered = lower(extension);
    let system = system_of_extension(extension)->0;
    let i = choose|i: int|
        0 <= i < extensions_of(system).len() && extensions_of(system)[i] == lowered;
    assert forall|j: int| 0 <= j < extension.len() implies extension[j] != '.' && extension[j]
        != '/' by {
        lemma_extensions_are_letters(system, i, j);
    }
}

/// The extension decides before the contents: where the extension of a path
/// is one of a system, the file is of that system whatever its bytes are.
pub proof fn lemma_extension_decides(path: Seq<char>, contents: Seq<u8>, other_contents: Seq<u8>)
    requires
        kind_of_path(path) is Image,
    ensures
        system_of_file(path, contents) == Some(kind_of_path(path)->Image_0),
        system_of_file(path, contents) == system_of_file(path, other_contents),
{
}

/// A file named by a stem, a dot and the extension of a system, in any
/// case, is an image of that system whatever its bytes are. The stem is not
/// empty and does not end in `/`.
pub proof fn lemma_named_image(stem: Seq<char>, extension: Seq<char>, contents: Seq<u8>)
    requires
        stem.len() > 0,
        stem.last() != '/',
        system_of_extension(extension) is Some,
    ensures
        kind_of_path(stem + seq!['.'] + extension) == PathKind::Image(
            system_of_extension(extension)->0,
        ),
        system_of_file(stem + seq!['.'] + extension, contents) == system_of_extension(extension),
{
    lemma_known_extension_is_plain(extension);
    lemma_extension_of_path(stem, extension);
}

/// A file whose extension is neither one of a system nor that of an archive
/// has no system, whatever its bytes are.
pub proof fn lemma_unknown_extension_has_no_system(path: Seq<char>, contents: Seq<u8>)
    requires
        kind_of_path(path) is Other,
    ensures
        system_of_file(path, contents) is None,
{
}

/// An archive is classified by the first of its entries that stands for a
/// system: the entry at `index` decides where no entry before it stands for
/// one.
pub proof fn lemma_first_known_entry_decides(path: Seq<char>, contents: Seq<u8>, index: int)
    requires
        kind_of_path(path) is Archive,
        zip_entries(contents) matches Some(entries) && 0 <= index < entries.len()
            && system_of_name(entries[index].0) is Some && forall|k: int|
            0 <= k < index ==> system_of_name(entries[k].0) is None,
    ensures
        system_of_file(path, contents) == system_of_name(zip_entries(contents)->0[index].0),
{
    let names = names_of(zip_entries(contents)->0);
    lemma_system_in_names(names, 0);
    assert(system_of_name(names[index]) is Some);
}

/// An archive that cannot be opened, or none of whose entries stands for a
/// system, has no system.
pub proof fn lemma_archive_without_known_entry(path: Seq<char>, contents: Seq<u8>)
    requires
        kind_of_path(path) is Archive,
        zip_entries(contents) matches Some(entries) ==> forall|k: int|
            0 <= k < entries.len() ==> system_of_name(entries[k].0) is None,
    ensures
        system_of_file(path, contents) is None,
{
    if zip_entries(contents) is Some {
        let entries = zip_entries(contents)->0;
        let names = names_of(entries);
        assert forall|k: int| 0 <= k < names.len() implies system_of_name(names[k]) is None by {
            assert(names[k] == entries[k].0);
        }
        lemma_system_in_names(names, 0);
    }
}

/// An entry whose name holds no dot stands for no system.
pub proof fn lemma_name_without_dot_has_no_system(name: Seq<char>)
    requires
        !name.contains('.'),
    ensures
        inner_extension(name) is None,
        system_of_name(Some(name)) is None,
{
    lemma_last_index_of(name, '.');
}

/// The name of an entry has an extension, and the extension is one of the
/// system's.
pub open spec fn name_is_of(name: Option<Seq<char>>, system: System) -> bool {
    name is Some && inner_extension(name->0) is Some && has_extension(
        system,
        lower(inner_extension(name->0)->0),
    )
}

/// An extension that stands for a system is one of that system's.
pub proof fn lemma_system_of_extension(extension: Seq<char>)
    ensures
        system_of_extension(extension) matches Some(system) ==> has_extension(
            system,
            lower(extension),
        ),
{
}

/// A file has a system only by an extension: that of its path, or, where
/// the path has the extension of an archive, that of the name of one of the
/// archive's entries.
pub proof fn lemma_system_only_by_extension(path: Seq<char>, contents: Seq<u8>, system: System)
    requires
        system_of_file(path, contents) == Some(system),
    ensures
        path_extension(path) is Some,
        has_extension(system, lower(path_extension(path)->0)) || (lower(path_extension(path)->0)
            == archive_extension() && zip_entries(contents) is Some && exists|k: int|
            0 <= k < zip_entries(contents)->0.len() && name_is_of(
                #[trigger] zip_entries(contents)->0[k].0,
                system,
            )),
{
    let extension = path_extension(path)->0;
    lemma_system_of_extension(extension);
    if kind_of_path(path) is Archive {
        let entries = zip_entries(contents)->0;
        let names = names_of(entries);
        lemma_system_in_names(names, 0);
        let index = choose|index: int|
            0 <= index < names.len() && #[trigger] system_of_name(names[index]) == Some(system);
        lemma_system_of_extension(inner_extension(names[index]->0)->0);
        assert(name_is_of(entries[index].0, system));
    }
}

/// What `system_in_names` finds is the system of the first name, at or after
/// `from`, that stands for one; it finds none only where no such name is
/// left.
pub proof fn lemma_system_in_names(names: Seq<Option<Seq<char>>>, from: int)
    requires
        0 <= from,
    ensures
        match system_in_names(names, from) {
            Some(system) => exists|index: int|
                from <= index < names.len() && #[trigger] system_of_name(names[index]) == Some(
                    system,
                ) && forall|k: int| from <= k < index ==> system_of_name(names[k]) is None,
            None => forall|k: int| from <= k < names.len() ==> system_of_name(names[k]) is None,
        },
    decreases names.len() - from,
{
    if from < names.len() && system_of_name(names[from]) is None {
        lemma_system_in_names(names, from + 1);
        if system_in_names(names, from + 1) is Some {
            let system = system_in_names(names, from + 1)->0;
            let index = choose|index: int|
                from + 1 <= index < names.len() && #[trigger] system_of_name(names[index]) == Some(
                    system,
                ) && forall|k: int| from + 1 <= k < index ==> system_of_name(names[k]) is None;
            assert(from <= index < names.len() && system_of_name(names[index]) == Some(system)
                && forall|k: int| from <= k < index ==> system_of_name(names[k]) is None);
        }
    }
}

} // verus!

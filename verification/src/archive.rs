//! Zip archives held in memory, and the uniform byte source over a plain file
//! or one entry of an archive.
//!
//! The archive itself is read by the `zip` crate. What it yields is named by
//! two uninterpreted functions, `zip_entries` and `archive_entries`; the
//! choice of the entry and every read from the source are verified against
//! those names.

use vstd::prelude::*;
use crate::error::RomError;
use crate::text::{ends_with, has_suffix, to_chars};

verus! {

/// `std::io::Cursor`, the reader over bytes in memory, as an opaque type.
#[verifier::external_type_specification]
#[verifier::external_body]
#[verifier::reject_recursive_types(T)]
pub struct ExCursor<T>(std::io::Cursor<T>);

/// `zip::ZipArchive`, an open archive, as an opaque type.
#[verifier::external_type_specification]
#[verifier::external_body]
#[verifier::reject_recursive_types(R)]
pub struct ExZipArchive<R>(zip::ZipArchive<R>);

/// `zip::result::ZipError`, as an opaque type.
#[verifier::external_type_specification]
#[verifier::external_body]
pub struct ExZipError(zip::result::ZipError);

/// What an open archive holds: for each entry, in the order of its listing,
/// its decoded name and its decompressed bytes, each absent where the
/// archive does not yield it. The listing holds one entry for each raw name:
/// a name that the central directory repeats stands once, at the place where
/// it first stood.
pub uninterp spec fn archive_entries(archive: zip::ZipArchive<std::io::Cursor<&[u8]>>) -> Seq<
    (Option<Seq<char>>, Option<Seq<u8>>),
>;

/// The entries of the archive that `bytes` encode, or `None` where they
/// encode no archive that can be opened.
pub uninterp spec fn zip_entries(bytes: Seq<u8>) -> Option<
    Seq<(Option<Seq<char>>, Option<Seq<u8>>)>,
>;

/// `zip::ZipArchive::new` over an in-memory cursor. Trusted: the call
/// succeeds exactly where `zip_entries` names a listing for these bytes, and
/// the archive it returns holds that listing.
#[verifier::external_body]
fn archive_open(bytes: &[u8]) -> (res: Result<
    zip::ZipArchive<std::io::Cursor<&[u8]>>,
    zip::result::ZipError,
>)
    ensures
        res is Ok <==> zip_entries(bytes@) is Some,
        res matches Ok(archive) ==> Some(archive_entries(archive)) == zip_entries(bytes@),
{
    zip::ZipArchive::new(std::io::Cursor::new(bytes))
}

/// `zip::ZipArchive::len`. Trusted: it is the number of entries.
#[verifier::external_body]
fn archive_len(archive: &zip::ZipArchive<std::io::Cursor<&[u8]>>) -> (n: usize)
    ensures
        n == archive_entries(*archive).len(),
{
    archive.len()
}

/// `zip::ZipArchive::name_for_index`. Trusted: for an index in range it
/// gives the entry's name where the name can be decoded, and `None` where it
/// cannot; out of range it gives `None`.
#[verifier::external_body]
fn archive_entry_name(
    archive: &zip::ZipArchive<std::io::Cursor<&[u8]>>,
    index: usize,
) -> (res: Option<String>)
    ensures
        index < archive_entries(*archive).len() ==> (match res {
            Some(name) => archive_entries(*archive)[index as int].0 == Some(name@),
            None => archive_entries(*archive)[index as int].0 is None,
        }),
        index >= archive_entries(*archive).len() ==> res is None,
{
    match archive.name_for_index(index) {
        Some(Ok(name)) => Some(name.into_owned()),
        _ => None,
    }
}

/// `zip::ZipArchive::by_index`, then `std::io::Read::read_to_end` on the
/// entry. Trusted: for an index in range it gives the entry's decompressed
/// bytes where the entry can be read, and an error where it cannot; out of
/// range it gives an error. The archive holds the same entries afterwards.
#[verifier::external_body]
fn archive_entry_data(
    archive: &mut zip::ZipArchive<std::io::Cursor<&[u8]>>,
    index: usize,
) -> (res: Result<Vec<u8>, zip::result::ZipError>)
    ensures
        archive_entries(*final(archive)) == archive_entries(*old(archive)),
        index < archive_entries(*old(archive)).len() ==> (match res {
            Ok(data) => archive_entries(*old(archive))[index as int].1 == Some(data@),
            Err(_) => archive_entries(*old(archive))[index as int].1 is None,
        }),
        index >= archive_entries(*old(archive)).len() ==> res is Err,
{
    let mut entry = archive.by_index(index)?;
    let mut data = Vec::new();
    std::io::Read::read_to_end(&mut entry, &mut data)?;
    Ok(data)
}

/// The suffix by which a path is taken for an archive.
pub open spec fn archive_suffix() -> Seq<char> {
    seq!['.', 'z', 'i', 'p']
}

/// `path` names an archive.
pub open spec fn is_archive_path(path: Seq<char>) -> bool {
    ends_with(path, archive_suffix())
}

/// An extension with its leading dot.
pub open spec fn dotted(extension: Seq<char>) -> Seq<char> {
    seq!['.'] + extension
}

/// The names of the entries, in their order.
pub open spec fn names_of(entries: Seq<(Option<Seq<char>>, Option<Seq<u8>>)>) -> Seq<
    Option<Seq<char>>,
> {
    Seq::new(entries.len(), |i: int| entries[i].0)
}

/// The entry has a name, and the name carries `extension`.
pub open spec fn name_has_extension(name: Option<Seq<char>>, extension: Seq<char>) -> bool {
    name matches Some(text) && ends_with(text, dotted(extension))
}

/// The first position at or after `from` whose name carries `extension`.
pub open spec fn first_with_extension(
    names: Seq<Option<Seq<char>>>,
    extension: Seq<char>,
    from: int,
) -> Option<int>
    decreases names.len() - from,
{
    if from < 0 || from >= names.len() {
        None
    } else if name_has_extension(names[from], extension) {
        Some(from)
    } else {
        first_with_extension(names, extension, from + 1)
    }
}

/// The entry that an archive with these names exposes: the first where no
/// extension is required, else the first whose name carries it.
pub open spec fn chosen_entry(names: Seq<Option<Seq<char>>>, required: Option<Seq<char>>) -> Result<
    int,
    RomError,
> {
    match required {
        None => if names.len() == 0 {
            Err(RomError::EmptyArchive)
        } else {
            Ok(0)
        },
        Some(extension) => match first_with_extension(names, extension, 0) {
            Some(index) => Ok(index),
            None => Err(RomError::NoMatchingEntry),
        },
    }
}

/// The bytes of the entry at `index`, or the archive error where the entry
/// cannot be read.
pub open spec fn entry_data(
    entries: Seq<(Option<Seq<char>>, Option<Seq<u8>>)>,
    index: int,
) -> Result<Seq<u8>, RomError> {
    match entries[index].1 {
        Some(data) => Ok(data),
        None => Err(RomError::Archive),
    }
}

/// The bytes that an archive exposes: those of the chosen entry.
pub open spec fn select_entry(
    entries: Seq<(Option<Seq<char>>, Option<Seq<u8>>)>,
    required: Option<Seq<char>>,
) -> Result<Seq<u8>, RomError> {
    match chosen_entry(names_of(entries), required) {
        Ok(index) => entry_data(entries, index),
        Err(e) => Err(e),
    }
}

/// The bytes behind a path: the file's own bytes, or for an archive those of
/// the entry chosen by `required`.
pub open spec fn source_bytes(
    path: Seq<char>,
    contents: Seq<u8>,
    required: Option<Seq<char>>,
) -> Result<Seq<u8>, RomError> {
    if is_archive_path(path) {
        match zip_entries(contents) {
            Some(entries) => select_entry(entries, required),
            None => Err(RomError::Archive),
        }
    } else {
        Ok(contents)
    }
}

/// The `length` bytes of `data` that start at `offset`, where that many are
/// available. A read of no bytes succeeds at any offset.
pub open spec fn section(data: Seq<u8>, offset: int, length: int) -> Option<Seq<u8>> {
    if length == 0 {
        Some(Seq::empty())
    } else if 0 <= offset && 0 < length && offset + length <= data.len() {
        Some(data.subrange(offset, offset + length))
    } else {
        None
    }
}

/// What `first_with_extension` finds is the first position, at or after
/// `from`, whose name carries the extension; it finds none only where no
/// such name is left.
pub proof fn lemma_first_with_extension(
    names: Seq<Option<Seq<char>>>,
    extension: Seq<char>,
    from: int,
)
    requires
        0 <= from,
    ensures
        match first_with_extension(names, extension, from) {
            Some(index) => from <= index < names.len() && name_has_extension(
                names[index],
                extension,
            ) && forall|k: int| from <= k < index ==> !name_has_extension(names[k], extension),
            None => forall|k: int|
                from <= k < names.len() ==> !name_has_extension(names[k], extension),
        },
    decreases names.len() - from,
{
    if from < names.len() && !name_has_extension(names[from], extension) {
        lemma_first_with_extension(names, extension, from + 1);
    }
}

/// A finite run of bytes that can be read at any offset: a plain file, or one
/// entry of an archive unpacked into memory.
pub struct ByteSource {
    data: Vec<u8>,
}

impl View for ByteSource {
    type V = Seq<u8>;

    closed spec fn view(&self) -> Seq<u8> {
        self.data@
    }
}

/// The required extension as the contracts speak of it.
pub open spec fn required_view(required: Option<&str>) -> Option<Seq<char>> {
    match required {
        Some(extension) => Some(extension@),
        None => None,
    }
}

/// An opened source, or the failure to open it, as the contracts speak of
/// it.
pub open spec fn source_view(res: Result<ByteSource, RomError>) -> Result<Seq<u8>, RomError> {
    match res {
        Ok(source) => Ok(source@),
        Err(e) => Err(e),
    }
}

/// Whether `path` names an archive.
pub fn path_is_archive(path: &str) -> (archive: bool)
    ensures
        archive == is_archive_path(path@),
{
    let chars = to_chars(path);
    let suffix: Vec<char> = vec!['.', 'z', 'i', 'p'];
    has_suffix(chars.as_slice(), suffix.as_slice())
}

/// The names of the entries of an open archive, in their order.
fn archive_names(archive: &zip::ZipArchive<std::io::Cursor<&[u8]>>) -> (names: Vec<Option<String>>)
    ensures
        names.deep_view() == names_of(archive_entries(*archive)),
{
    let count = archive_len(archive);
    let mut names: Vec<Option<String>> = Vec::new();
    let mut index: usize = 0;
    while index < count
        invariant
            index <= count,
            count == archive_entries(*archive).len(),
            names@.len() == index,
            forall|k: int|
                0 <= k < index ==> (#[trigger] names@[k]).deep_view() == archive_entries(
                    *archive,
                )[k].0,
        decreases count - index,
    {
        names.push(archive_entry_name(archive, index));
        index += 1;
    }
    assert(names.deep_view() =~= names_of(archive_entries(*archive)));
    names
}

/// The names of the entries of the archive that `contents` encode, in the
/// order of the listing; a name that cannot be decoded is absent. `None`
/// where the bytes encode no archive that can be opened.
pub fn list_archive(contents: &[u8]) -> (names: Option<Vec<Option<String>>>)
    ensures
        match names {
            Some(listing) => zip_entries(contents@) matches Some(entries) && listing.deep_view()
                == names_of(entries),
            None => zip_entries(contents@) is None,
        },
{
    match archive_open(contents) {
        Ok(archive) => Some(archive_names(&archive)),
        Err(_) => None,
    }
}

/// The position of the first name that carries `extension`.
pub fn find_name_with_extension(names: &Vec<Option<String>>, extension: &str) -> (found: Option<
    usize,
>)
    ensures
        match found {
            Some(index) => index < names.len() && first_with_extension(
                names.deep_view(),
                extension@,
                0,
            ) == Some(index as int),
            None => first_with_extension(names.deep_view(), extension@, 0) is None,
        },
{
    let mut suffix: Vec<char> = vec!['.'];
    let mut tail = to_chars(extension);
    suffix.append(&mut tail);
    assert(suffix@ =~= dotted(extension@));
    let mut index: usize = 0;
    while index < names.len()
        invariant
            index <= names.len(),
            suffix@ == dotted(extension@),
            first_with_extension(names.deep_view(), extension@, 0) == first_with_extension(
                names.deep_view(),
                extension@,
                index as int,
            ),
        decreases names.len() - index,
    {
        assert(names.deep_view()[index as int] == names@[index as int].deep_view());
        match &names[index] {
            Some(name) => {
                let name_chars = to_chars(name.as_str());
                if has_suffix(name_chars.as_slice(), suffix.as_slice()) {
                    return Some(index);
                }
            },
            None => {},
        }
        index += 1;
    }
    None
}

/// The entry that an archive with these names exposes: the first where
/// `required` is `None`, else the first whose name carries the required
/// extension. Fails with `EmptyArchive` where there is no first entry, and
/// with `NoMatchingEntry` where no name carries the extension.
pub fn choose_entry(names: &Vec<Option<String>>, required: Option<&str>) -> (res: Result<
    usize,
    RomError,
>)
    ensures
        res matches Ok(index) ==> index < names.len(),
        match res {
            Ok(index) => chosen_entry(names.deep_view(), required_view(required)) matches Ok(
                chosen,
            ) && chosen == index,
            Err(e) => chosen_entry(names.deep_view(), required_view(required)) matches Err(
                failure,
            ) && failure == e,
        },
{
    match required {
        None => {
            if names.len() == 0 {
                Err(RomError::EmptyArchive)
            } else {
                Ok(0)
            }
        },
        Some(extension) => match find_name_with_extension(names, extension) {
            Some(index) => Ok(index),
            None => Err(RomError::NoMatchingEntry),
        },
    }
}

impl ByteSource {
    /// Opens the bytes behind `path`. `contents` are the bytes of the file at
    /// `path`. Where the path names an archive, the source exposes one entry,
    /// unpacked into memory: the first where `required` is `None`, else the
    /// first whose name carries the required extension.
    pub fn open(path: &str, contents: Vec<u8>, required: Option<&str>) -> (res: Result<
        ByteSource,
        RomError,
    >)
        ensures
            source_view(res) == source_bytes(path@, contents@, required_view(required)),
    {
        if !path_is_archive(path) {
            return Ok(ByteSource { data: contents });
        }
        let mut archive = match archive_open(contents.as_slice()) {
            Ok(archive) => archive,
            Err(_) => {
                return Err(RomError::Archive);
            },
        };
        let names = archive_names(&archive);
        let index = match choose_entry(&names, required) {
            Ok(index) => index,
            Err(e) => {
                return Err(e);
            },
        };
        match archive_entry_data(&mut archive, index) {
            Ok(data) => Ok(ByteSource { data }),
            Err(_) => Err(RomError::Archive),
        }
    }

    /// A source over bytes that are already at hand.
    pub fn from_bytes(data: Vec<u8>) -> (source: ByteSource)
        ensures
            source@ == data@,
    {
        ByteSource { data }
    }

    /// The number of bytes in the source.
    pub fn len(&self) -> (n: usize)
        ensures
            n == self@.len(),
    {
        self.data.len()
    }

    /// All bytes of the source.
    pub fn bytes(&self) -> (all: &[u8])
        ensures
            all@ == self@,
    {
        self.data.as_slice()
    }

    /// Reads exactly `length` bytes from `offset`. Fails with
    /// `TruncatedRead` where fewer are available.
    pub fn read_exact(&self, offset: u64, length: usize) -> (res: Result<Vec<u8>, RomError>)
        ensures
            match res {
                Ok(bytes) => section(self@, offset as int, length as int) == Some(bytes@),
                Err(e) => e == RomError::TruncatedRead && section(
                    self@,
                    offset as int,
                    length as int,
                ) is None,
            },
    {
        if length == 0 {
            return Ok(Vec::new());
        }
        let total = self.data.len();
        if offset > total as u64 {
            return Err(RomError::TruncatedRead);
        }
        let start = offset as usize;
        if length > total - start {
            return Err(RomError::TruncatedRead);
        }
        let part = vstd::slice::slice_subrange(self.data.as_slice(), start, start + length);
        Ok(vstd::slice::slice_to_vec(part))
    }
}

} // verus!

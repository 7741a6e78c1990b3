//! Content digests of images, as the catalog records them.
//!
//! A digest is the MD5 of the image's bytes, or for one console family of
//! four regions of the image, written as 32 lower-case hexadecimal digits.
//! MD5 itself is computed by the `md5` crate and named here by `md5_digest`;
//! which bytes are hashed, and how the digest is written out, is verified.

use vstd::prelude::*;
use vstd::string::StringExecFns;
use crate::archive::{
    ByteSource, dotted, is_archive_path, lemma_first_with_extension, name_has_extension,
    names_of, path_is_archive, section, source_bytes, zip_entries,
};
use crate::error::RomError;
use crate::system::System;
use crate::text::{ends_with, has_suffix, to_chars};

verus! {

/// The MD5 digest of `data`.
pub uninterp spec fn md5_digest(data: Seq<u8>) -> Seq<u8>;

/// `md5::compute`. Trusted: the sixteen bytes it returns are the digest that
/// `md5_digest` names for these bytes.
#[verifier::external_body]
fn md5_bytes(data: &[u8]) -> (digest: [u8; 16])
    ensures
        digest@ == md5_digest(data@),
{
    md5::compute(data).0
}

/// The length of the header of an NDS image.
pub const NDS_HEADER_LEN: usize = 0x160;

/// The length of the icon and title block of an NDS image.
pub const ICON_TITLE_LEN: usize = 0xA00;

/// Where the header holds the offset of the ARM9 boot code.
pub const ARM9_OFFSET_AT: usize = 0x20;

/// Where the header holds the size of the ARM9 boot code.
pub const ARM9_SIZE_AT: usize = 0x2C;

/// Where the header holds the offset of the ARM7 boot code.
pub const ARM7_OFFSET_AT: usize = 0x30;

/// Where the header holds the size of the ARM7 boot code.
pub const ARM7_SIZE_AT: usize = 0x3C;

/// Where the header holds the offset of the icon and title block.
pub const ICON_TITLE_OFFSET_AT: usize = 0x68;

/// How the digest of an image is computed.
#[derive(Clone, Copy, Debug, PartialEq, Eq, Hash, Structural)]
pub enum HashStrategy {
    /// Over the header, the two boot code regions and the icon and title
    /// block of an NDS image.
    StructuredRegions,
    /// Over all bytes of the image.
    WholeContent,
}

/// The strategy by which a system's images are hashed.
pub open spec fn strategy_of(system: System) -> HashStrategy {
    match system {
        System::NDS => HashStrategy::StructuredRegions,
        _ => HashStrategy::WholeContent,
    }
}

/// The hexadecimal digit for a value below sixteen.
pub open spec fn hex_digit(nibble: int) -> char {
    seq!['0', '1', '2', '3', '4', '5', '6', '7', '8', '9', 'a', 'b', 'c', 'd', 'e', 'f'][nibble]
}

/// `bytes` in lower-case hexadecimal, two digits for each byte, the high
/// half first.
pub open spec fn hex_lower(bytes: Seq<u8>) -> Seq<char> {
    Seq::new(
        2 * bytes.len(),
        |i: int|
            hex_digit(
                if i % 2 == 0 {
                    bytes[i / 2] as int / 16
                } else {
                    bytes[i / 2] as int % 16
                },
            ),
    )
}

/// `c` is a digit of lower-case hexadecimal.
pub open spec fn is_lower_hex(c: char) -> bool {
    ('0' <= c && c <= '9') || ('a' <= c && c <= 'f')
}

/// `text` has the form of a digest: 32 digits of lower-case hexadecimal.
pub open spec fn is_digest_text(text: Seq<char>) -> bool {
    text.len() == 32 && forall|i: int| 0 <= i < 32 ==> is_lower_hex(#[trigger] text[i])
}

/// The 32-bit number that `data` holds at `at`, least significant byte
/// first.
pub open spec fn le_u32(data: Seq<u8>, at: int) -> int {
    data[at] as int + 0x100 * (data[at + 1] as int) + 0x1_0000 * (data[at + 2] as int) + 0x100_0000
        * (data[at + 3] as int)
}

/// The fields of an NDS header that say where the hashed regions lie.
#[derive(Clone, Copy, Debug, PartialEq, Eq, Structural)]
pub struct NdsHeader {
    pub arm9_offset: u32,
    pub arm9_size: u32,
    pub arm7_offset: u32,
    pub arm7_size: u32,
    pub icon_title_offset: u32,
}

/// The fields that a header holds at their fixed places.
pub open spec fn header_fields(header: Seq<u8>) -> NdsHeader {
    NdsHeader {
        arm9_offset: le_u32(header, ARM9_OFFSET_AT as int) as u32,
        arm9_size: le_u32(header, ARM9_SIZE_AT as int) as u32,
        arm7_offset: le_u32(header, ARM7_OFFSET_AT as int) as u32,
        arm7_size: le_u32(header, ARM7_SIZE_AT as int) as u32,
        icon_title_offset: le_u32(header, ICON_TITLE_OFFSET_AT as int) as u32,
    }
}

/// The regions that a header names, read from the image: the header's
/// bytes, then the ARM9 code, then the ARM7 code, then the icon and title
/// block. `None` where a region reaches past the end of the image.
pub open spec fn regions_of(image: Seq<u8>, header: Seq<u8>, fields: NdsHeader) -> Option<Seq<u8>> {
    let icon_title = section(image, fields.icon_title_offset as int, ICON_TITLE_LEN as int);
    let arm9 = section(image, fields.arm9_offset as int, fields.arm9_size as int);
    let arm7 = section(image, fields.arm7_offset as int, fields.arm7_size as int);
    if icon_title is Some && arm9 is Some && arm7 is Some {
        Some(header + arm9->0 + arm7->0 + icon_title->0)
    } else {
        None
    }
}

/// The extension of an NDS image.
pub open spec fn nds_extension() -> Seq<char> {
    seq!['n', 'd', 's']
}

/// The bytes of an NDS image that its digest covers: the header, then the
/// ARM9 code, then the ARM7 code, then the icon and title block, each region
/// where the header says it lies. `None` where the image is shorter than a
/// header or a region reaches past its end.
pub open spec fn nds_regions(image: Seq<u8>) -> Option<Seq<u8>> {
    match section(image, 0, NDS_HEADER_LEN as int) {
        Some(header) => regions_of(image, header, header_fields(header)),
        None => None,
    }
}

/// The digest of all bytes behind `path`: the file's own, or those of the
/// first entry where it is an archive.
pub open spec fn whole_content_digest(path: Seq<char>, contents: Seq<u8>) -> Result<
    Seq<char>,
    RomError,
> {
    match source_bytes(path, contents, None) {
        Ok(image) => Ok(hex_lower(md5_digest(image))),
        Err(e) => Err(e),
    }
}

/// The digest of an NDS image: that of the regions its header names.
pub open spec fn nds_image_digest(image: Seq<u8>) -> Result<Seq<char>, RomError> {
    match nds_regions(image) {
        Some(regions) => Ok(hex_lower(md5_digest(regions))),
        None => Err(RomError::MalformedHeader),
    }
}

/// The digest of the regions of the NDS image behind `path`: the file
/// itself, or the first entry with the NDS extension where it is an archive.
pub open spec fn nds_digest(path: Seq<char>, contents: Seq<u8>) -> Result<Seq<char>, RomError> {
    if !ends_with(path, dotted(nds_extension())) && !is_archive_path(path) {
        Err(RomError::MalformedHeader)
    } else {
        match source_bytes(path, contents, Some(nds_extension())) {
            Ok(image) => nds_image_digest(image),
            Err(e) => Err(e),
        }
    }
}

/// The digest of the image behind `path`, by the strategy of its system.
pub open spec fn digest_of(path: Seq<char>, contents: Seq<u8>, system: System) -> Result<
    Seq<char>,
    RomError,
> {
    match strategy_of(system) {
        HashStrategy::StructuredRegions => nds_digest(path, contents),
        HashStrategy::WholeContent => whole_content_digest(path, contents),
    }
}

/// A computed digest, or its failure, as the contracts speak of it.
pub open spec fn digest_view(res: Result<String, RomError>) -> Result<Seq<char>, RomError> {
    match res {
        Ok(digest) => Ok(digest@),
        Err(e) => Err(e),
    }
}

/// Hexadecimal text has two digits for each byte, all of them lower-case.
pub proof fn lemma_hex_lower_digits(bytes: Seq<u8>)
    ensures
        hex_lower(bytes).len() == 2 * bytes.len(),
        forall|i: int| 0 <= i < 2 * bytes.len() ==> is_lower_hex(#[trigger] hex_lower(bytes)[i]),
{
    assert forall|i: int| 0 <= i < 2 * bytes.len() implies is_lower_hex(
        #[trigger] hex_lower(bytes)[i],
    ) by {
        let b = bytes[i / 2] as int;
        lemma_hex_digit_is_lower_hex(b / 16);
        lemma_hex_digit_is_lower_hex(b % 16);
    }
}

/// Every hexadecimal digit is a digit of lower-case hexadecimal.
proof fn lemma_hex_digit_is_lower_hex(nibble: int)
    requires
        0 <= nibble < 16,
    ensures
        is_lower_hex(hex_digit(nibble)),
{
}

/// The strategy by which images of `system` are hashed.
pub fn get_hash_function(system: &System) -> (strategy: Option<HashStrategy>)
    ensures
        strategy == Some(strategy_of(*system)),
{
    match system {
        System::NDS => Some(HashStrategy::StructuredRegions),
        System::GBA => Some(HashStrategy::WholeContent),
        System::GBC => Some(HashStrategy::WholeContent),
        System::GB => Some(HashStrategy::WholeContent),
        System::WonderSwan => Some(HashStrategy::WholeContent),
    }
}

/// The hexadecimal digit for a value below sixteen, as text.
fn hex_digit_text(nibble: u8) -> (text: &'static str)
    requires
        nibble < 16,
    ensures
        text@ == seq![hex_digit(nibble as int)],
{
    proof {
        reveal_strlit("0");
        reveal_strlit("1");
        reveal_strlit("2");
        reveal_strlit("3");
        reveal_strlit("4");
        reveal_strlit("5");
        reveal_strlit("6");
        reveal_strlit("7");
        reveal_strlit("8");
        reveal_strlit("9");
        reveal_strlit("a");
        reveal_strlit("b");
        reveal_strlit("c");
        reveal_strlit("d");
        reveal_strlit("e");
        reveal_strlit("f");
    }
    let text = match nibble {
        0 => "0",
        1 => "1",
        2 => "2",
        3 => "3",
        4 => "4",
        5 => "5",
        6 => "6",
        7 => "7",
        8 => "8",
        9 => "9",
        10 => "a",
        11 => "b",
        12 => "c",
        13 => "d",
        14 => "e",
        _ => "f",
    };
    text
}

/// Writes `bytes` in lower-case hexadecimal.
pub fn to_hex(bytes: &[u8]) -> (text: String)
    ensures
        text@ == hex_lower(bytes@),
{
    let mut text = String::new();
    let mut i: usize = 0;
    while i < bytes.len()
        invariant
            i <= bytes.len(),
            text@ == hex_lower(bytes@.take(i as int)),
        decreases bytes.len() - i,
    {
        let byte = bytes[i];
        let ghost before = text@;
        text.append(hex_digit_text(byte / 16));
        text.append(hex_digit_text(byte % 16));
        assert(text@ =~= hex_lower(bytes@.take(i + 1))) by {
            let shorter = bytes@.take(i as int);
            let longer = bytes@.take(i + 1);
            assert(text@ == before + seq![hex_digit(byte as int / 16)] + seq![
                hex_digit(byte as int % 16),
            ]);
            assert forall|k: int| 0 <= k < text@.len() implies text@[k] == hex_lower(longer)[k] by {
                if k < 2 * i {
                    assert(longer[k / 2] == shorter[k / 2]);
                } else {
                    assert(longer[k / 2] == byte);
                }
            }
        }
        i += 1;
    }
    text
}

/// The digest of `data`: its MD5 in lower-case hexadecimal.
pub fn digest_text(data: &[u8]) -> (text: String)
    ensures
        text@ == hex_lower(md5_digest(data@)),
        is_digest_text(text@),
{
    let digest = md5_bytes(data);
    let text = to_hex(digest.as_slice());
    proof {
        lemma_hex_lower_digits(digest@);
    }
    text
}

/// The 32-bit number that `data` holds at `at`, least significant byte
/// first; `None` where `data` has no four bytes there.
pub fn read_u32_le(data: &[u8], at: usize) -> (value: Option<u32>)
    ensures
        match value {
            Some(number) => at + 4 <= data@.len() && number == le_u32(data@, at as int),
            None => at + 4 > data@.len(),
        },
{
    if data.len() < 4 || at > data.len() - 4 {
        return None;
    }
    let b0 = data[at] as u32;
    let b1 = data[at + 1] as u32;
    let b2 = data[at + 2] as u32;
    let b3 = data[at + 3] as u32;
    Some(b0 + 0x100 * b1 + 0x1_0000 * b2 + 0x100_0000 * b3)
}

/// Reads the five fields of an NDS header; `None` where `header` is shorter
/// than a header.
pub fn parse_nds_header(header: &[u8]) -> (fields: Option<NdsHeader>)
    ensures
        match fields {
            Some(found) => header@.len() >= NDS_HEADER_LEN && found == header_fields(header@),
            None => header@.len() < NDS_HEADER_LEN,
        },
{
    if header.len() < NDS_HEADER_LEN {
        return None;
    }
    let arm9_offset = read_u32_le(header, ARM9_OFFSET_AT);
    let arm9_size = read_u32_le(header, ARM9_SIZE_AT);
    let arm7_offset = read_u32_le(header, ARM7_OFFSET_AT);
    let arm7_size = read_u32_le(header, ARM7_SIZE_AT);
    let icon_title_offset = read_u32_le(header, ICON_TITLE_OFFSET_AT);
    match (arm9_offset, arm9_size, arm7_offset, arm7_size, icon_title_offset) {
        (
            Some(arm9_offset),
            Some(arm9_size),
            Some(arm7_offset),
            Some(arm7_size),
            Some(icon_title_offset),
        ) => Some(NdsHeader { arm9_offset, arm9_size, arm7_offset, arm7_size, icon_title_offset }),
        _ => None,
    }
}

/// Reads exactly `size` bytes of the image from `offset`. Fails with
/// `TruncatedRead` where fewer are available; nothing shorter is handed
/// back.
pub fn read_file_section(source: &ByteSource, offset: u64, size: usize) -> (res: Result<
    Vec<u8>,
    RomError,
>)
    ensures
        match res {
            Ok(bytes) => section(source@, offset as int, size as int) == Some(bytes@),
            Err(e) => e == RomError::TruncatedRead && section(
                source@,
                offset as int,
                size as int,
            ) is None,
        },
{
    source.read_exact(offset, size)
}

/// The digest over all bytes of the image at `file_path`, whose bytes on
/// disk are `contents`. An archive is hashed by its first entry.
pub fn calculate_whole_file_hash(file_path: &str, contents: Vec<u8>) -> (res: Result<
    String,
    RomError,
>)
    ensures
        digest_view(res) == whole_content_digest(file_path@, contents@),
        res matches Ok(digest) ==> is_digest_text(digest@),
{
    match ByteSource::open(file_path, contents, None) {
        Ok(source) => Ok(digest_text(source.bytes())),
        Err(e) => Err(e),
    }
}

/// The digest of an NDS image: the MD5 over its header, ARM9 code, ARM7
/// code and icon and title block, in that order. Fails with
/// `MalformedHeader` where the image is shorter than a header or a region
/// reaches past its end: a read that comes up short there means that the
/// header is cut off or names what the image does not hold.
pub fn hash_nds_image(image: &ByteSource) -> (res: Result<String, RomError>)
    ensures
        digest_view(res) == nds_image_digest(image@),
        res matches Ok(digest) ==> is_digest_text(digest@),
{
    let mut regions = match read_file_section(image, 0, NDS_HEADER_LEN) {
        Ok(header) => header,
        Err(_) => {
            return Err(RomError::MalformedHeader);
        },
    };
    let ghost header = regions@;
    let fields = match parse_nds_header(regions.as_slice()) {
        Some(fields) => fields,
        None => {
            return Err(RomError::MalformedHeader);
        },
    };
    let mut icon_title = match read_file_section(
        image,
        fields.icon_title_offset as u64,
        ICON_TITLE_LEN,
    ) {
        Ok(bytes) => bytes,
        Err(_) => {
            return Err(RomError::MalformedHeader);
        },
    };
    let mut arm9 = match read_file_section(
        image,
        fields.arm9_offset as u64,
        fields.arm9_size as usize,
    ) {
        Ok(bytes) => bytes,
        Err(_) => {
            return Err(RomError::MalformedHeader);
        },
    };
    let mut arm7 = match read_file_section(
        image,
        fields.arm7_offset as u64,
        fields.arm7_size as usize,
    ) {
        Ok(bytes) => bytes,
        Err(_) => {
            return Err(RomError::MalformedHeader);
        },
    };
    let ghost covered = header + arm9@ + arm7@ + icon_title@;
    regions.append(&mut arm9);
    regions.append(&mut arm7);
    regions.append(&mut icon_title);
    assert(regions@ == covered);
    Ok(digest_text(regions.as_slice()))
}

/// The digest of the NDS image at `file_path`, whose bytes on disk are
/// `contents`: the MD5 over its header, ARM9 code, ARM7 code and icon and
/// title block, in that order. An archive is hashed by its first entry with
/// the NDS extension.
pub fn calculate_nds_file_hash(file_path: &str, contents: Vec<u8>) -> (res: Result<
    String,
    RomError,
>)
    ensures
        digest_view(res) == nds_digest(file_path@, contents@),
        res matches Ok(digest) ==> is_digest_text(digest@),
{
    let path = to_chars(file_path);
    let nds_suffix: Vec<char> = vec!['.', 'n', 'd', 's'];
    assert(nds_suffix@ =~= dotted(nds_extension()));
    if !has_suffix(path.as_slice(), nds_suffix.as_slice()) && !path_is_archive(file_path) {
        return Err(RomError::MalformedHeader);
    }
    proof {
        reveal_strlit("nds");
        assert("nds"@ =~= nds_extension());
    }
    let source = match ByteSource::open(file_path, contents, Some("nds")) {
        Ok(source) => source,
        Err(e) => {
            return Err(e);
        },
    };
    hash_nds_image(&source)
}

/// The digest of the image at `file_path`, whose bytes on disk are
/// `contents`, by the strategy of `system`. The digest depends on the path,
/// the bytes and the system alone: the same image always has the same
/// digest.
pub fn compute_hash(file_path: &str, contents: Vec<u8>, system: System) -> (res: Result<
    String,
    RomError,
>)
    ensures
        digest_view(res) == digest_of(file_path@, contents@, system),
        res matches Ok(digest) ==> is_digest_text(digest@),
{
    match get_hash_function(&system) {
        Some(HashStrategy::StructuredRegions) => calculate_nds_file_hash(file_path, contents),
        Some(HashStrategy::WholeContent) => calculate_whole_file_hash(file_path, contents),
        None => Err(RomError::MalformedHeader),
    }
}

/// Hashing is a function of its inputs: two digests computed for the same
/// path, bytes and system are the same.
pub proof fn lemma_same_image_same_digest(
    path: Seq<char>,
    contents: Seq<u8>,
    system: System,
    first: Result<String, RomError>,
    second: Result<String, RomError>,
)
    requires
        digest_view(first) == digest_of(path, contents, system),
        digest_view(second) == digest_of(path, contents, system),
    ensures
        digest_view(first) == digest_view(second),
{
}

/// An archive is transparent to the whole-content digest: bytes hashed as a
/// plain file, and an archive whose first entry holds those bytes, have the
/// same digest.
pub proof fn lemma_whole_content_archive_transparent(
    plain_path: Seq<char>,
    image: Seq<u8>,
    archive_path: Seq<char>,
    archive: Seq<u8>,
)
    requires
        !is_archive_path(plain_path),
        is_archive_path(archive_path),
        zip_entries(archive) matches Some(entries) && entries.len() > 0 && entries[0].1 == Some(
            image,
        ),
    ensures
        whole_content_digest(archive_path, archive) == whole_content_digest(plain_path, image),
{
}

/// An archive is transparent to the structured digest: an NDS image hashed
/// as a plain file, and an archive in which the first entry with the NDS
/// extension holds its bytes, have the same digest.
pub proof fn lemma_structured_archive_transparent(
    plain_path: Seq<char>,
    image: Seq<u8>,
    archive_path: Seq<char>,
    archive: Seq<u8>,
    index: int,
)
    requires
        ends_with(plain_path, dotted(nds_extension())),
        is_archive_path(archive_path),
        zip_entries(archive) matches Some(entries) && 0 <= index < entries.len()
            && name_has_extension(entries[index].0, nds_extension()) && entries[index].1 == Some(
            image,
        ) && forall|k: int| 0 <= k < index ==> !name_has_extension(entries[k].0, nds_extension()),
    ensures
        nds_digest(archive_path, archive) == nds_digest(plain_path, image),
{
    let names = names_of(zip_entries(archive)->0);
    lemma_first_with_extension(names, nds_extension(), 0);
    assert(name_has_extension(names[index], nds_extension()));
    assert(!is_archive_path(plain_path)) by {
        let tail = plain_path.subrange(plain_path.len() - 4, plain_path.len() as int);
        assert(tail[3] == 's');
    }
}

/// The bytes that the structured digest covers begin with the header; the
/// ARM9 code, the ARM7 code and the icon and title block follow in that
/// order, each as long as the header says.
pub proof fn lemma_region_order(image: Seq<u8>)
    requires
        nds_regions(image) is Some,
    ensures
        ({
            let regions = nds_regions(image)->0;
            let header = image.subrange(0, NDS_HEADER_LEN as int);
            let fields = header_fields(header);
            let arm9 = section(image, fields.arm9_offset as int, fields.arm9_size as int)->0;
            let arm7 = section(image, fields.arm7_offset as int, fields.arm7_size as int)->0;
            let icon_title = section(
                image,
                fields.icon_title_offset as int,
                ICON_TITLE_LEN as int,
            )->0;
            &&& arm9.len() == fields.arm9_size
            &&& arm7.len() == fields.arm7_size
            &&& icon_title.len() == ICON_TITLE_LEN
            &&& regions.len() == NDS_HEADER_LEN + arm9.len() + arm7.len() + ICON_TITLE_LEN
            &&& regions.subrange(0, NDS_HEADER_LEN as int) == header
            &&& regions.subrange(NDS_HEADER_LEN as int, NDS_HEADER_LEN + arm9.len()) == arm9
            &&& regions.subrange(
                NDS_HEADER_LEN + arm9.len(),
                NDS_HEADER_LEN + arm9.len() + arm7.len(),
            ) == arm7
            &&& regions.subrange(
                NDS_HEADER_LEN + arm9.len() + arm7.len(),
                regions.len() as int,
            ) == icon_title
        }),
{
    let regions = nds_regions(image)->0;
    let header = image.subrange(0, NDS_HEADER_LEN as int);
    let fields = header_fields(header);
    let arm9 = section(image, fields.arm9_offset as int, fields.arm9_size as int)->0;
    let arm7 = section(image, fields.arm7_offset as int, fields.arm7_size as int)->0;
    let icon_title = section(image, fields.icon_title_offset as int, ICON_TITLE_LEN as int)->0;
    assert(regions.subrange(0, NDS_HEADER_LEN as int) =~= header);
    assert(regions.subrange(NDS_HEADER_LEN as int, NDS_HEADER_LEN + arm9.len()) =~= arm9);
    assert(regions.subrange(NDS_HEADER_LEN + arm9.len(), NDS_HEADER_LEN + arm9.len() + arm7.len())
        =~= arm7);
    assert(regions.subrange(NDS_HEADER_LEN + arm9.len() + arm7.len(), regions.len() as int)
        =~= icon_title);
}

/// Exchanging two regions of one length and different content changes the
/// bytes that are hashed.
pub proof fn lemma_exchanged_regions_are_other_bytes(
    header: Seq<u8>,
    first: Seq<u8>,
    second: Seq<u8>,
    icon_title: Seq<u8>,
)
    requires
        first.len() == second.len(),
        first != second,
    ensures
        header + first + second + icon_title != header + second + first + icon_title,
{
    let one = header + first + second + icon_title;
    let other = header + second + first + icon_title;
    if one == other {
        assert forall|k: int| 0 <= k < first.len() implies first[k] == second[k] by {
            assert(one[header.len() + k] == first[k]);
            assert(other[header.len() + k] == second[k]);
        }
        assert(first =~= second);
    }
}

/// Two NDS images with one header, whose ARM9 and ARM7 blocks have one
/// length and are exchanged between them, and whose icon and title blocks
/// agree, are hashed over different bytes, unless the two blocks hold the
/// same. Whether the digests differ with the bytes lies with MD5.
pub proof fn lemma_exchanged_blocks_are_hashed_differently(one: Seq<u8>, other: Seq<u8>)
    requires
        nds_regions(one) is Some,
        nds_regions(other) is Some,
        one.subrange(0, NDS_HEADER_LEN as int) == other.subrange(0, NDS_HEADER_LEN as int),
        ({
            let fields = header_fields(one.subrange(0, NDS_HEADER_LEN as int));
            let arm9 = |image: Seq<u8>|
                section(image, fields.arm9_offset as int, fields.arm9_size as int)->0;
            let arm7 = |image: Seq<u8>|
                section(image, fields.arm7_offset as int, fields.arm7_size as int)->0;
            let icon_title = |image: Seq<u8>|
                section(image, fields.icon_title_offset as int, ICON_TITLE_LEN as int)->0;
            &&& fields.arm9_size == fields.arm7_size
            &&& arm9(one) == arm7(other)
            &&& arm7(one) == arm9(other)
            &&& arm9(one) != arm7(one)
            &&& icon_title(one) == icon_title(other)
        }),
    ensures
        nds_regions(one) != nds_regions(other),
{
    let header = one.subrange(0, NDS_HEADER_LEN as int);
    let fields = header_fields(header);
    let arm9 = section(one, fields.arm9_offset as int, fields.arm9_size as int)->0;
    let arm7 = section(one, fields.arm7_offset as int, fields.arm7_size as int)->0;
    let icon_title = section(one, fields.icon_title_offset as int, ICON_TITLE_LEN as int)->0;
    lemma_region_order(one);
    lemma_exchanged_regions_are_other_bytes(header, arm9, arm7, icon_title);
    assert(nds_regions(one)->0 == header + arm9 + arm7 + icon_title);
    assert(nds_regions(other)->0 == header + arm7 + arm9 + icon_title);
}

} // verus!

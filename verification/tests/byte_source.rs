use std::io::Write;

use romident::archive::{
    choose_entry, find_name_with_extension, list_archive, path_is_archive, ByteSource,
};
use romident::error::RomError;

fn stored_archive(entries: &[(&str, &[u8])]) -> Vec<u8> {
    let mut writer = zip::ZipWriter::new(std::io::Cursor::new(Vec::new()));
    let options = zip::write::SimpleFileOptions::default()
        .compression_method(zip::CompressionMethod::Stored);
    for (name, data) in entries {
        writer.start_file(*name, options).unwrap();
        writer.write_all(data).unwrap();
    }
    writer.finish().unwrap().into_inner()
}

fn deflated_archive(entries: &[(&str, &[u8])]) -> Vec<u8> {
    let mut writer = zip::ZipWriter::new(std::io::Cursor::new(Vec::new()));
    let options = zip::write::SimpleFileOptions::default()
        .compression_method(zip::CompressionMethod::Deflated);
    for (name, data) in entries {
        writer.start_file(*name, options).unwrap();
        writer.write_all(data).unwrap();
    }
    writer.finish().unwrap().into_inner()
}

fn opened(path: &str, contents: Vec<u8>, required: Option<&str>) -> Result<Vec<u8>, RomError> {
    ByteSource::open(path, contents, required).map(|source| source.bytes().to_vec())
}

#[test]
fn archive_paths_end_in_dot_zip() {
    assert!(path_is_archive("game.zip"));
    assert!(path_is_archive("dir/game.nds.zip"));
    assert!(path_is_archive(".zip"));
    assert!(!path_is_archive("game.ZIP"));
    assert!(!path_is_archive("game.zip.bak"));
    assert!(!path_is_archive("zip"));
    assert!(!path_is_archive(""));
}

#[test]
fn plain_file_is_its_own_source() {
    assert_eq!(opened("game.gb", vec![1, 2, 3], None), Ok(vec![1, 2, 3]));
    assert_eq!(opened("game.gb", vec![1, 2, 3], Some("nds")), Ok(vec![1, 2, 3]));
    assert_eq!(opened("game.gb", vec![], None), Ok(vec![]));
}

#[test]
fn archive_exposes_its_first_entry() {
    let archive = stored_archive(&[("b.bin", b"second"), ("a.bin", b"first")]);
    assert_eq!(opened("game.zip", archive, None), Ok(b"second".to_vec()));
}

#[test]
fn archive_exposes_the_first_entry_with_the_extension() {
    let archive = stored_archive(&[
        ("readme.txt", b"text"),
        ("one.nds", b"first image"),
        ("two.nds", b"second image"),
    ]);
    assert_eq!(opened("game.zip", archive, Some("nds")), Ok(b"first image".to_vec()));
}

#[test]
fn deflated_entries_are_unpacked() {
    let data: Vec<u8> = (0..5000u32).map(|i| (i % 7) as u8).collect();
    let archive = deflated_archive(&[("game.gba", &data)]);
    assert!(archive.len() < data.len());
    assert_eq!(opened("game.zip", archive, None), Ok(data));
}

#[test]
fn required_extension_is_matched_with_its_dot_and_case() {
    let archive = stored_archive(&[("nds", b"a"), ("x.NDS", b"b"), ("xnds", b"c")]);
    assert_eq!(opened("game.zip", archive, Some("nds")), Err(RomError::NoMatchingEntry));
}

#[test]
fn empty_archive_has_no_first_entry() {
    let archive = stored_archive(&[]);
    assert_eq!(opened("game.zip", archive.clone(), None), Err(RomError::EmptyArchive));
    assert_eq!(opened("game.zip", archive, Some("nds")), Err(RomError::NoMatchingEntry));
}

#[test]
fn unreadable_archive_is_an_archive_error() {
    assert_eq!(opened("game.zip", b"no archive".to_vec(), None), Err(RomError::Archive));
    assert_eq!(opened("game.zip", vec![], Some("nds")), Err(RomError::Archive));
}

#[test]
fn damaged_entry_is_an_archive_error() {
    let data = b"some bytes that are stored as they are";
    let mut archive = stored_archive(&[("game.gba", data)]);
    let at = archive.windows(data.len()).position(|w| w == data).unwrap();
    archive[at] ^= 0xFF;
    assert_eq!(opened("game.zip", archive, None), Err(RomError::Archive));
}

fn names(list: &[Option<&str>]) -> Vec<Option<String>> {
    list.iter().map(|name| name.map(|text| text.to_string())).collect()
}

#[test]
fn archive_is_listed_in_the_order_of_its_entries() {
    let archive = stored_archive(&[("b.nds", b"1"), ("dir/a.txt", b"2"), ("c", b"3")]);
    assert_eq!(
        list_archive(&archive),
        Some(names(&[Some("b.nds"), Some("dir/a.txt"), Some("c")]))
    );
    assert_eq!(list_archive(&stored_archive(&[])), Some(Vec::new()));
    assert_eq!(list_archive(b"not an archive"), None);
    assert_eq!(list_archive(&[]), None);
}

#[test]
fn first_name_with_the_extension_is_found() {
    let list = names(&[Some("a.txt"), None, Some("b.nds"), Some("c.nds")]);
    assert_eq!(find_name_with_extension(&list, "nds"), Some(2));
    assert_eq!(find_name_with_extension(&list, "txt"), Some(0));
    assert_eq!(find_name_with_extension(&list, "ds"), None);
    assert_eq!(find_name_with_extension(&list, "gba"), None);
    assert_eq!(find_name_with_extension(&list, ""), None);
    assert_eq!(find_name_with_extension(&names(&[Some("a.")]), ""), Some(0));
    assert_eq!(find_name_with_extension(&Vec::new(), "nds"), None);
}

#[test]
fn entry_is_chosen_by_position_or_by_extension() {
    let list = names(&[Some("a.txt"), Some("b.nds")]);
    assert_eq!(choose_entry(&list, None), Ok(0));
    assert_eq!(choose_entry(&list, Some("nds")), Ok(1));
    assert_eq!(choose_entry(&list, Some("gba")), Err(RomError::NoMatchingEntry));
    assert_eq!(choose_entry(&names(&[None]), None), Ok(0));
    assert_eq!(choose_entry(&names(&[None]), Some("nds")), Err(RomError::NoMatchingEntry));
    assert_eq!(choose_entry(&Vec::new(), None), Err(RomError::EmptyArchive));
    assert_eq!(choose_entry(&Vec::new(), Some("nds")), Err(RomError::NoMatchingEntry));
}

#[test]
fn from_bytes_keeps_the_bytes() {
    let source = ByteSource::from_bytes(vec![9, 8, 7]);
    assert_eq!(source.len(), 3);
    assert_eq!(source.bytes(), &[9, 8, 7]);
}

#[test]
fn read_exact_gives_the_bytes_at_the_offset() {
    let source = ByteSource::from_bytes(vec![10, 11, 12, 13, 14]);
    assert_eq!(source.read_exact(0, 5), Ok(vec![10, 11, 12, 13, 14]));
    assert_eq!(source.read_exact(1, 3), Ok(vec![11, 12, 13]));
    assert_eq!(source.read_exact(4, 1), Ok(vec![14]));
}

#[test]
fn read_exact_fails_where_bytes_are_missing() {
    let source = ByteSource::from_bytes(vec![10, 11, 12, 13, 14]);
    assert_eq!(source.read_exact(0, 6), Err(RomError::TruncatedRead));
    assert_eq!(source.read_exact(4, 2), Err(RomError::TruncatedRead));
    assert_eq!(source.read_exact(5, 1), Err(RomError::TruncatedRead));
    assert_eq!(source.read_exact(u64::MAX, 1), Err(RomError::TruncatedRead));
    assert_eq!(source.read_exact(1, usize::MAX), Err(RomError::TruncatedRead));
}

#[test]
fn read_of_no_bytes_succeeds_anywhere() {
    let source = ByteSource::from_bytes(vec![10, 11, 12]);
    assert_eq!(source.read_exact(0, 0), Ok(vec![]));
    assert_eq!(source.read_exact(3, 0), Ok(vec![]));
    assert_eq!(source.read_exact(4, 0), Ok(vec![]));
    assert_eq!(source.read_exact(u64::MAX, 0), Ok(vec![]));
}

#[test]
fn archive_errors_are_told_apart_from_the_rest() {
    assert!(RomError::Archive.is_archive_error());
    assert!(RomError::EmptyArchive.is_archive_error());
    assert!(RomError::NoMatchingEntry.is_archive_error());
    assert!(!RomError::MalformedHeader.is_archive_error());
    assert!(!RomError::TruncatedRead.is_archive_error());
}

#[test]
fn error_messages() {
    assert_eq!(RomError::Archive.message(), "archive cannot be read");
    assert_eq!(RomError::EmptyArchive.message(), "archive is empty");
    assert_eq!(RomError::NoMatchingEntry.message(), "no matching entry in the archive");
    assert_eq!(RomError::MalformedHeader.message(), "header is malformed");
    assert_eq!(RomError::TruncatedRead.message(), "read past the end of the image");
}

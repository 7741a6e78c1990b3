use std::io::Write;

use romident::system::{
    classify_archive, classify_names, classify_path, determine_rom_system, PathKind, System,
};

fn archive_of(entries: &[(&str, &[u8])]) -> Vec<u8> {
    let mut writer = zip::ZipWriter::new(std::io::Cursor::new(Vec::new()));
    let options = zip::write::SimpleFileOptions::default()
        .compression_method(zip::CompressionMethod::Stored);
    for (name, data) in entries {
        writer.start_file(*name, options).unwrap();
        writer.write_all(data).unwrap();
    }
    writer.finish().unwrap().into_inner()
}

#[test]
fn nds_extension_classifies_without_the_contents() {
    assert_eq!(determine_rom_system("game.nds", &[]), Some(System::NDS));
    assert_eq!(determine_rom_system("game.nds", b"not an image at all"), Some(System::NDS));
    assert_eq!(classify_path("game.nds"), PathKind::Image(System::NDS));
}

#[test]
fn archive_with_only_a_gba_entry_is_gba() {
    let archive = archive_of(&[("inner.gba", b"rom")]);
    assert_eq!(classify_path("game.zip"), PathKind::Archive);
    assert_eq!(determine_rom_system("game.zip", &archive), Some(System::GBA));
}

#[test]
fn unknown_extension_is_absent() {
    assert_eq!(classify_path("game.xyz"), PathKind::Other);
    assert_eq!(determine_rom_system("game.xyz", &[]), None);
    let archive = archive_of(&[("inner.gba", b"rom")]);
    assert_eq!(determine_rom_system("game.xyz", &archive), None);
}

#[test]
fn extension_is_taken_in_lower_case() {
    assert_eq!(classify_path("GAME.NDS"), PathKind::Image(System::NDS));
    assert_eq!(classify_path("Game.Gbc"), PathKind::Image(System::GBC));
    assert_eq!(classify_path("game.ZIP"), PathKind::Archive);
    assert_eq!(classify_path("game.WSC"), PathKind::Image(System::WonderSwan));
}

#[test]
fn every_extension_has_its_system() {
    assert_eq!(determine_rom_system("a.gba", &[]), Some(System::GBA));
    assert_eq!(determine_rom_system("a.gbc", &[]), Some(System::GBC));
    assert_eq!(determine_rom_system("a.gb", &[]), Some(System::GB));
    assert_eq!(determine_rom_system("a.ws", &[]), Some(System::WonderSwan));
    assert_eq!(determine_rom_system("a.wsc", &[]), Some(System::WonderSwan));
}

#[test]
fn extension_belongs_to_the_final_component() {
    assert_eq!(classify_path("roms/handheld/game.gb"), PathKind::Image(System::GB));
    assert_eq!(classify_path("roms.nds/readme"), PathKind::Other);
    assert_eq!(classify_path("roms.nds/game.gba"), PathKind::Image(System::GBA));
    assert_eq!(classify_path("a.b.c.gbc"), PathKind::Image(System::GBC));
}

#[test]
fn names_without_an_extension_are_other() {
    assert_eq!(classify_path(""), PathKind::Other);
    assert_eq!(classify_path("nds"), PathKind::Other);
    assert_eq!(classify_path(".nds"), PathKind::Other);
    assert_eq!(classify_path("roms/.nds"), PathKind::Other);
    assert_eq!(classify_path("game."), PathKind::Other);
    assert_eq!(classify_path("game.nds/"), PathKind::Other);
}

#[test]
fn a_dot_file_with_a_second_dot_has_an_extension() {
    assert_eq!(classify_path(".hidden.nds"), PathKind::Image(System::NDS));
}

#[test]
fn archive_entries_are_taken_in_listing_order() {
    let archive = archive_of(&[("readme.txt", b"hello"), ("b.gbc", b"x"), ("a.nds", b"y")]);
    assert_eq!(classify_archive(&archive), Some(System::GBC));
    let archive = archive_of(&[("a.nds", b"y"), ("b.gbc", b"x")]);
    assert_eq!(classify_archive(&archive), Some(System::NDS));
}

#[test]
fn archive_entry_extension_ignores_case() {
    let archive = archive_of(&[("INNER.WS", b"rom")]);
    assert_eq!(classify_archive(&archive), Some(System::WonderSwan));
}

#[test]
fn archive_entry_without_a_dot_has_no_extension() {
    let archive = archive_of(&[("gba", b"rom")]);
    assert_eq!(classify_archive(&archive), None);
    assert_eq!(determine_rom_system("odd.zip", &archive), None);
    let archive = archive_of(&[("gba", b"rom"), ("nds", b"rom"), ("real.gbc", b"rom")]);
    assert_eq!(determine_rom_system("odd.zip", &archive), Some(System::GBC));
}

#[test]
fn archive_without_a_known_entry_is_absent() {
    let archive = archive_of(&[("readme.txt", b"hello"), ("cover.png", b"x")]);
    assert_eq!(determine_rom_system("game.zip", &archive), None);
    let empty = archive_of(&[]);
    assert_eq!(determine_rom_system("game.zip", &empty), None);
}

#[test]
fn bytes_that_are_no_archive_are_absent() {
    assert_eq!(determine_rom_system("game.zip", b"this is not a zip file"), None);
    assert_eq!(determine_rom_system("game.zip", &[]), None);
    assert_eq!(classify_archive(b"PK but not really"), None);
}

#[test]
fn archive_inside_an_archive_is_not_followed() {
    let inner = archive_of(&[("game.gba", b"rom")]);
    let outer = archive_of(&[("inner.zip", &inner)]);
    assert_eq!(determine_rom_system("outer.zip", &outer), None);
}

fn listing(names: &[Option<&str>]) -> Vec<Option<String>> {
    names.iter().map(|name| name.map(|text| text.to_string())).collect()
}

#[test]
fn names_are_classified_in_their_order() {
    assert_eq!(classify_names(&listing(&[Some("inner.gba")])), Some(System::GBA));
    assert_eq!(
        classify_names(&listing(&[Some("readme.txt"), Some("b.ws"), Some("a.nds")])),
        Some(System::WonderSwan)
    );
    assert_eq!(classify_names(&listing(&[None, Some("dir/game.GB")])), Some(System::GB));
    assert_eq!(classify_names(&listing(&[Some("nds.txt"), Some("gba.")])), None);
    assert_eq!(classify_names(&listing(&[Some("gba")])), None);
    assert_eq!(
        classify_names(&listing(&[Some("gba"), Some("ws"), Some("x.wsc")])),
        Some(System::WonderSwan)
    );
    assert_eq!(classify_names(&listing(&[Some(".gba")])), Some(System::GBA));
    assert_eq!(classify_names(&listing(&[None, None])), None);
    assert_eq!(classify_names(&listing(&[])), None);
}

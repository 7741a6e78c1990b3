use std::io::Write;

use romident::archive::ByteSource;
use romident::error::RomError;
use romident::rom_hashes::{
    calculate_nds_file_hash, calculate_whole_file_hash, compute_hash, digest_text,
    get_hash_function, hash_nds_image, parse_nds_header, read_file_section, read_u32_le, to_hex,
    HashStrategy, NdsHeader,
};
use romident::system::System;

fn packed(entries: &[(&str, &[u8])], method: zip::CompressionMethod) -> Vec<u8> {
    let mut writer = zip::ZipWriter::new(std::io::Cursor::new(Vec::new()));
    let options = zip::write::SimpleFileOptions::default().compression_method(method);
    for (name, data) in entries {
        writer.start_file(*name, options).unwrap();
        writer.write_all(data).unwrap();
    }
    writer.finish().unwrap().into_inner()
}

fn put_u32(image: &mut [u8], at: usize, value: u32) {
    image[at..at + 4].copy_from_slice(&value.to_le_bytes());
}

/// An image of 0xE00 bytes: ARM9 code of 0x10 bytes at 0x200, ARM7 code of
/// 0x20 bytes at 0x300, the icon and title block at 0x400.
fn nds_image() -> Vec<u8> {
    let mut image = vec![0u8; 0xE00];
    for i in 0..0x160 {
        image[i] = (i % 251) as u8;
    }
    put_u32(&mut image, 0x20, 0x200);
    put_u32(&mut image, 0x2C, 0x10);
    put_u32(&mut image, 0x30, 0x300);
    put_u32(&mut image, 0x3C, 0x20);
    put_u32(&mut image, 0x68, 0x400);
    for i in 0x200..0x210 {
        image[i] = 0xA9;
    }
    for i in 0x300..0x320 {
        image[i] = 0xA7;
    }
    for i in 0x400..0xE00 {
        image[i] = 0x1C;
    }
    image
}

fn is_digest(text: &str) -> bool {
    text.len() == 32 && text.chars().all(|c| matches!(c, '0'..='9' | 'a'..='f'))
}

#[test]
fn nds_is_hashed_by_regions_and_the_rest_by_content() {
    assert_eq!(get_hash_function(&System::NDS), Some(HashStrategy::StructuredRegions));
    assert_eq!(get_hash_function(&System::GBA), Some(HashStrategy::WholeContent));
    assert_eq!(get_hash_function(&System::GBC), Some(HashStrategy::WholeContent));
    assert_eq!(get_hash_function(&System::GB), Some(HashStrategy::WholeContent));
    assert_eq!(get_hash_function(&System::WonderSwan), Some(HashStrategy::WholeContent));
}

#[test]
fn hex_has_two_lower_case_digits_per_byte() {
    assert_eq!(to_hex(&[]), "");
    assert_eq!(to_hex(&[0x00]), "00");
    assert_eq!(to_hex(&[0x0f, 0xf0]), "0ff0");
    assert_eq!(to_hex(&[0x01, 0x23, 0x45, 0x67, 0x89, 0xab, 0xcd, 0xef]), "0123456789abcdef");
    assert_eq!(to_hex(&[0xff]), "ff");
}

#[test]
fn digest_text_is_the_md5_in_hex() {
    assert_eq!(digest_text(b""), "d41d8cd98f00b204e9800998ecf8427e");
    assert_eq!(digest_text(b"abc"), "900150983cd24fb0d6963f7d28e17f72");
    assert_eq!(
        digest_text(b"abcdefghijklmnopqrstuvwxyz"),
        "c3fcd3d76192e4007dfb496cca67e13b"
    );
}

#[test]
fn little_endian_numbers() {
    let data = [0x78, 0x56, 0x34, 0x12, 0xff, 0xff, 0xff, 0xff, 0x01, 0x00, 0x00, 0x00];
    assert_eq!(read_u32_le(&data, 0), Some(0x12345678));
    assert_eq!(read_u32_le(&data, 4), Some(0xffff_ffff));
    assert_eq!(read_u32_le(&data, 8), Some(1));
    assert_eq!(read_u32_le(&data, 1), Some(0xff123456));
}

#[test]
fn little_endian_number_needs_four_bytes() {
    let data = [1, 2, 3, 4, 5];
    assert_eq!(read_u32_le(&data, 1), Some(0x05040302));
    assert_eq!(read_u32_le(&data, 2), None);
    assert_eq!(read_u32_le(&data, 5), None);
    assert_eq!(read_u32_le(&data, usize::MAX), None);
    assert_eq!(read_u32_le(&[1, 2, 3], 0), None);
    assert_eq!(read_u32_le(&[], 0), None);
}

#[test]
fn header_fields_are_read_at_their_places() {
    let image = nds_image();
    assert_eq!(
        parse_nds_header(&image[..0x160]),
        Some(NdsHeader {
            arm9_offset: 0x200,
            arm9_size: 0x10,
            arm7_offset: 0x300,
            arm7_size: 0x20,
            icon_title_offset: 0x400,
        })
    );
    assert_eq!(parse_nds_header(&image[..0x15F]), None);
    assert_eq!(parse_nds_header(&[]), None);
    let mut header = vec![0u8; 0x160];
    header[0x20..0x24].copy_from_slice(&[0x01, 0x02, 0x03, 0x04]);
    header[0x2C..0x30].copy_from_slice(&[0xff, 0xff, 0xff, 0xff]);
    header[0x68..0x6C].copy_from_slice(&[0x00, 0x00, 0x00, 0x80]);
    let fields = parse_nds_header(&header).unwrap();
    assert_eq!(fields.arm9_offset, 0x04030201);
    assert_eq!(fields.arm9_size, u32::MAX);
    assert_eq!(fields.arm7_offset, 0);
    assert_eq!(fields.arm7_size, 0);
    assert_eq!(fields.icon_title_offset, 0x8000_0000);
}

#[test]
fn image_hash_does_not_ask_for_a_path() {
    let source = ByteSource::from_bytes(nds_image());
    assert_eq!(hash_nds_image(&source), Ok("a3cb0a6263a69e8c1222066ca8c1d141".to_string()));
    let short = ByteSource::from_bytes(vec![0u8; 0x100]);
    assert_eq!(hash_nds_image(&short), Err(RomError::MalformedHeader));
}

#[test]
fn file_section_past_the_end_is_a_truncated_read() {
    let source = ByteSource::from_bytes(vec![1, 2, 3, 4]);
    assert_eq!(read_file_section(&source, 1, 2), Ok(vec![2, 3]));
    assert_eq!(read_file_section(&source, 0, 4), Ok(vec![1, 2, 3, 4]));
    assert_eq!(read_file_section(&source, 3, 2), Err(RomError::TruncatedRead));
    assert_eq!(read_file_section(&source, 0, 5), Err(RomError::TruncatedRead));
    assert_eq!(read_file_section(&source, 4, 1), Err(RomError::TruncatedRead));
    assert_eq!(read_file_section(&source, u64::MAX, 1), Err(RomError::TruncatedRead));
    assert_eq!(read_file_section(&source, 9, 0), Ok(vec![]));
}

#[test]
fn short_read_inside_the_hash_engine_is_a_malformed_header() {
    let source = ByteSource::from_bytes(vec![0u8; 0x15F]);
    assert_eq!(read_file_section(&source, 0, 0x160), Err(RomError::TruncatedRead));
    assert_eq!(hash_nds_image(&source), Err(RomError::MalformedHeader));
}

#[test]
fn hashing_twice_gives_the_same_digest() {
    let image = nds_image();
    let first = compute_hash("game.nds", image.clone(), System::NDS);
    let second = compute_hash("game.nds", image.clone(), System::NDS);
    assert_eq!(first, second);
    let first = compute_hash("game.gb", image.clone(), System::GB);
    let second = compute_hash("game.gb", image, System::GB);
    assert_eq!(first, second);
}

#[test]
fn whole_file_hash_covers_every_byte() {
    assert_eq!(
        calculate_whole_file_hash("empty.gb", vec![]),
        Ok("d41d8cd98f00b204e9800998ecf8427e".to_string())
    );
    assert_eq!(
        calculate_whole_file_hash("abc.gba", b"abc".to_vec()),
        Ok("900150983cd24fb0d6963f7d28e17f72".to_string())
    );
    assert_eq!(
        calculate_whole_file_hash("game.gb", nds_image()),
        Ok("20366d3eeb60531cb83ede2e37619ea6".to_string())
    );
}

#[test]
fn whole_file_hash_sees_through_an_archive() {
    let image = nds_image();
    let plain = calculate_whole_file_hash("game.gb", image.clone()).unwrap();
    let stored = packed(&[("game.gb", &image)], zip::CompressionMethod::Stored);
    let deflated = packed(&[("game.gb", &image)], zip::CompressionMethod::Deflated);
    assert_eq!(calculate_whole_file_hash("game.zip", stored), Ok(plain.clone()));
    assert_eq!(calculate_whole_file_hash("game.zip", deflated), Ok(plain));
}

#[test]
fn whole_file_hash_takes_the_first_entry_whatever_its_name() {
    let archive = packed(
        &[("notes.txt", b"abc"), ("game.gb", b"rom")],
        zip::CompressionMethod::Stored,
    );
    assert_eq!(
        calculate_whole_file_hash("game.zip", archive),
        Ok("900150983cd24fb0d6963f7d28e17f72".to_string())
    );
}

#[test]
fn archive_under_another_extension_is_hashed_as_it_is() {
    let archive = packed(&[("game.gb", b"abc")], zip::CompressionMethod::Stored);
    let digest = calculate_whole_file_hash("game.ZIP", archive.clone()).unwrap();
    assert_eq!(digest, digest_text(&archive));
    assert_ne!(digest, "900150983cd24fb0d6963f7d28e17f72");
}

#[test]
fn whole_file_hash_of_a_bad_archive_fails() {
    let empty = packed(&[], zip::CompressionMethod::Stored);
    assert_eq!(calculate_whole_file_hash("game.zip", empty), Err(RomError::EmptyArchive));
    assert_eq!(
        calculate_whole_file_hash("game.zip", b"garbage".to_vec()),
        Err(RomError::Archive)
    );
}

#[test]
fn nds_hash_covers_header_arm9_arm7_icon_in_that_order() {
    assert_eq!(
        calculate_nds_file_hash("game.nds", nds_image()),
        Ok("a3cb0a6263a69e8c1222066ca8c1d141".to_string())
    );
}

#[test]
fn nds_hash_differs_from_any_other_order_of_the_regions() {
    let image = nds_image();
    let header = &image[..0x160];
    let arm9 = &image[0x200..0x210];
    let arm7 = &image[0x300..0x320];
    let icon = &image[0x400..0xE00];
    let digest = calculate_nds_file_hash("game.nds", image.clone()).unwrap();
    assert_eq!(digest, digest_text(&[header, arm9, arm7, icon].concat()));
    let arms_swapped = digest_text(&[header, arm7, arm9, icon].concat());
    assert_eq!(arms_swapped, "f1ac0306c7c4e839bfacf8ac62704c69");
    assert_ne!(digest, arms_swapped);
    let icon_first = digest_text(&[header, icon, arm9, arm7].concat());
    assert_eq!(icon_first, "033b99a8f44cd2462065b42978777946");
    assert_ne!(digest, icon_first);
    assert_ne!(digest, digest_text(&[icon, header, arm9, arm7].concat()));
    assert_ne!(digest, digest_text(&image));
}

#[test]
fn nds_hash_changes_where_two_blocks_are_exchanged() {
    let mut first = nds_image();
    put_u32(&mut first, 0x3C, 0x10);
    let mut second = first.clone();
    for i in 0..0x10 {
        first[0x200 + i] = 0xAA;
        first[0x300 + i] = 0xBB;
        second[0x200 + i] = 0xBB;
        second[0x300 + i] = 0xAA;
    }
    let first_digest = calculate_nds_file_hash("first.nds", first).unwrap();
    let second_digest = calculate_nds_file_hash("second.nds", second).unwrap();
    assert_eq!(first_digest, "6b62f65df95fc39b62db60dd556c5a7e");
    assert_eq!(second_digest, "f220e393d2147ea9e2745aeda58ffa3b");
    assert_ne!(first_digest, second_digest);
}

#[test]
fn nds_hash_ignores_bytes_outside_the_regions() {
    let mut image = nds_image();
    let digest = calculate_nds_file_hash("game.nds", image.clone()).unwrap();
    image[0x180] = 0xEE;
    image[0x250] = 0xEE;
    image[0x3FF] = 0xEE;
    image.push(0xEE);
    assert_eq!(calculate_nds_file_hash("game.nds", image.clone()), Ok(digest.clone()));
    image[0x205] = 0xEE;
    assert_ne!(calculate_nds_file_hash("game.nds", image), Ok(digest));
}

#[test]
fn nds_hash_sees_through_an_archive() {
    let image = nds_image();
    let stored = packed(
        &[("readme.txt", b"about"), ("game.nds", &image), ("other.nds", b"x")],
        zip::CompressionMethod::Stored,
    );
    let deflated = packed(&[("game.nds", &image)], zip::CompressionMethod::Deflated);
    let expected = Ok("a3cb0a6263a69e8c1222066ca8c1d141".to_string());
    assert_eq!(calculate_nds_file_hash("game.zip", stored), expected);
    assert_eq!(calculate_nds_file_hash("game.zip", deflated), expected);
}

#[test]
fn nds_hash_with_empty_code_regions() {
    let mut image = vec![0u8; 0x160 + 0xA00];
    put_u32(&mut image, 0x68, 0x160);
    put_u32(&mut image, 0x20, 0xFFFF_FFFF);
    put_u32(&mut image, 0x2C, 0);
    put_u32(&mut image, 0x30, 0x1234_5678);
    put_u32(&mut image, 0x3C, 0);
    assert_eq!(
        calculate_nds_file_hash("game.nds", image),
        Ok("8139b243ba7d353c3730cdf25ec63426".to_string())
    );
}

#[test]
fn nds_hash_needs_a_whole_header() {
    assert_eq!(calculate_nds_file_hash("game.nds", vec![]), Err(RomError::MalformedHeader));
    assert_eq!(
        calculate_nds_file_hash("game.nds", vec![0u8; 0x15F]),
        Err(RomError::MalformedHeader)
    );
}

#[test]
fn nds_hash_rejects_regions_past_the_end() {
    let mut image = nds_image();
    image.truncate(0xDFF);
    assert_eq!(calculate_nds_file_hash("game.nds", image), Err(RomError::MalformedHeader));
    let mut image = nds_image();
    put_u32(&mut image, 0x2C, 0xC01);
    assert_eq!(calculate_nds_file_hash("game.nds", image), Err(RomError::MalformedHeader));
    let mut image = nds_image();
    put_u32(&mut image, 0x30, 0xFFFF_FFF0);
    assert_eq!(calculate_nds_file_hash("game.nds", image), Err(RomError::MalformedHeader));
    let mut image = nds_image();
    put_u32(&mut image, 0x2C, 0xC00);
    assert!(calculate_nds_file_hash("game.nds", image).is_ok());
}

#[test]
fn nds_hash_rejects_other_files() {
    assert_eq!(calculate_nds_file_hash("game.gba", nds_image()), Err(RomError::MalformedHeader));
    assert_eq!(calculate_nds_file_hash("game.NDS", nds_image()), Err(RomError::MalformedHeader));
    assert_eq!(calculate_nds_file_hash("nds", nds_image()), Err(RomError::MalformedHeader));
}

#[test]
fn nds_hash_of_an_archive_without_an_nds_entry_fails() {
    let image = nds_image();
    let archive = packed(&[("game.gba", &image)], zip::CompressionMethod::Stored);
    assert_eq!(calculate_nds_file_hash("game.zip", archive), Err(RomError::NoMatchingEntry));
    let empty = packed(&[], zip::CompressionMethod::Stored);
    assert_eq!(calculate_nds_file_hash("game.zip", empty), Err(RomError::NoMatchingEntry));
    assert_eq!(calculate_nds_file_hash("game.zip", b"junk".to_vec()), Err(RomError::Archive));
}

#[test]
fn compute_hash_follows_the_system() {
    let image = nds_image();
    assert_eq!(
        compute_hash("game.nds", image.clone(), System::NDS),
        Ok("a3cb0a6263a69e8c1222066ca8c1d141".to_string())
    );
    for system in [System::GBA, System::GBC, System::GB, System::WonderSwan] {
        assert_eq!(
            compute_hash("game.nds", image.clone(), system),
            Ok("20366d3eeb60531cb83ede2e37619ea6".to_string())
        );
    }
}

#[test]
fn digests_are_32_lower_case_hex_digits() {
    assert!(is_digest(&compute_hash("game.nds", nds_image(), System::NDS).unwrap()));
    assert!(is_digest(&compute_hash("game.gb", vec![0xAB; 100], System::GB).unwrap()));
    assert!(is_digest(&digest_text(&[0xFF; 64])));
}

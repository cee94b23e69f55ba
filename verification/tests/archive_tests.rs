//! Tests for the RGSS archive codec: the keystream, version detection,
//! entries, and whole-archive round trips.

use hayotrans::archiver::ArchiveFormat;
use hayotrans::rgss::entry::RgssEntry;
use hayotrans::rgss::key::RgssKey;
use hayotrans::rgss::reader::RgssReader;
use hayotrans::rgss::version::RgssVersion;
use hayotrans::rgss::writer::RgssWriter;

#[test]
fn test_format_from_extension() {
    assert!(matches!(
        ArchiveFormat::from_extension("rgssad"),
        Some(ArchiveFormat::Rgss(RgssVersion::V1))
    ));
    assert!(matches!(
        ArchiveFormat::from_extension("rgss2a"),
        Some(ArchiveFormat::Rgss(RgssVersion::V1))
    ));
    assert!(matches!(
        ArchiveFormat::from_extension("rgss3a"),
        Some(ArchiveFormat::Rgss(RgssVersion::V3))
    ));
    assert!(ArchiveFormat::from_extension("zip").is_none());
}

#[test]
fn test_key_v1_step() {
    let mut key = RgssKey::with_state(RgssVersion::V1, 0xDEADCAFE);
    assert_eq!(key.current(), 0xDEADCAFE);

    key.step();
    let expected = 0xDEADCAFEu32.wrapping_mul(7).wrapping_add(3);
    assert_eq!(key.current(), expected);
}

#[test]
fn test_key_v3_step() {
    let mut key = RgssKey::with_state(RgssVersion::V3, 0x12345678);
    assert_eq!(key.current(), 0x12345678);

    key.step();
    let expected = 0x12345678u32.wrapping_mul(9).wrapping_add(3);
    assert_eq!(key.current(), expected);
}

#[test]
fn test_decrypt_int() {
    let mut key = RgssKey::with_state(RgssVersion::V1, 0xDEADCAFE);
    let encrypted = 0x12345678 ^ 0xDEADCAFE;
    let decrypted = key.decrypt_int(encrypted);
    assert_eq!(decrypted, 0x12345678);
}

#[test]
fn test_encrypt_decrypt_symmetry() {
    let data = b"Hello, World!";
    let mut key1 = RgssKey::with_state(RgssVersion::V1, 0xDEADCAFE);
    let mut key2 = RgssKey::with_state(RgssVersion::V1, 0xDEADCAFE);

    let encrypted = key1.encrypt_content(data);
    let decrypted = key2.decrypt_content(&encrypted);

    assert_eq!(decrypted, data);
}

#[test]
fn test_name_cipher_v1_symmetry() {
    let data = "Data\\Map001.rxdata".as_bytes();
    let mut key1 = RgssKey::with_state(RgssVersion::V1, 0xDEADCAFE);
    let mut key2 = RgssKey::with_state(RgssVersion::V1, 0xDEADCAFE);
    let encrypted = key1.encrypt_string_v1(data);
    let decrypted = key2.decrypt_string_v1(&encrypted);
    assert_eq!(decrypted, data);
    // the cipher actually changed the bytes
    assert_ne!(encrypted, data);
}

#[test]
fn test_name_cipher_v3_symmetry() {
    let data = "Data\\Map001.rvdata2".as_bytes();
    let key = RgssKey::with_state(RgssVersion::V3, 0x12345679);
    let encrypted = key.encrypt_string_v3(data);
    let decrypted = key.decrypt_string_v3(&encrypted);
    assert_eq!(decrypted, data);
    assert_ne!(encrypted, data);
}

#[test]
fn test_entry_output_path() {
    let entry = RgssEntry {
        name: "Data\\Map001.rxdata".to_string(),
        size: 1024,
        offset: 0,
        key: 0,
    };

    let output = entry.output_path("/output");
    assert!(output.contains("Data"));
    assert!(output.contains("Map001.rxdata"));
}

#[test]
fn test_rgss_entry_output_path() {
    let entry = RgssEntry {
        name: "Data\\Scripts.rxdata".to_string(),
        size: 1024,
        offset: 0,
        key: 0,
    };

    let output = entry.output_path("/tmp/output");
    assert!(output.contains("Data"));
}

#[test]
fn test_version_extension() {
    assert_eq!(RgssVersion::V1.extension(), "rgssad");
    assert_eq!(RgssVersion::V3.extension(), "rgss3a");
}

#[test]
fn test_version_header_byte() {
    assert_eq!(RgssVersion::V1.header_byte(), 1);
    assert_eq!(RgssVersion::V3.header_byte(), 3);
}

#[test]
fn test_detect_v1() {
    let detected = RgssVersion::detect_from_header(b"RGSSAD\0\x01").unwrap();
    assert_eq!(detected, RgssVersion::V1);
}

#[test]
fn test_detect_v3() {
    let detected = RgssVersion::detect_from_header(b"RGSSAD\0\x03").unwrap();
    assert_eq!(detected, RgssVersion::V3);
}

#[test]
fn test_detect_invalid() {
    let result = RgssVersion::detect_from_header(b"INVALID\0");
    assert!(result.is_err());
}

#[test]
fn test_detect_unsupported_version() {
    let result = RgssVersion::detect_from_header(b"RGSSAD\0\x02");
    match result {
        Err(hayotrans::archiver::ArchiverError::UnsupportedVersion(2)) => {}
        other => panic!("expected an unsupported-version error, got {:?}", other),
    }
}

#[test]
fn test_pack_unpack_v1() {
    let mut writer = RgssWriter::for_version(RgssVersion::V1);
    writer.add_entry("Data\\test.txt", b"Hello, RGSS!".to_vec());
    let archive = writer.write().unwrap();

    let reader = RgssReader::open(&archive).unwrap();
    assert_eq!(reader.entries().len(), 1);
    assert_eq!(reader.entries()[0].name, "Data\\test.txt");

    let extracted = reader.extract_to_memory(&archive, &reader.entries()[0]).unwrap();
    assert_eq!(extracted, b"Hello, RGSS!");
}

#[test]
fn test_pack_unpack_v3() {
    let mut writer = RgssWriter::for_version(RgssVersion::V3);
    writer.add_entry("Data\\test.txt", b"Hello, RGSS3!".to_vec());
    let archive = writer.write().unwrap();

    let reader = RgssReader::open(&archive).unwrap();
    assert_eq!(reader.entries().len(), 1);
    assert_eq!(reader.entries()[0].name, "Data\\test.txt");

    let extracted = reader.extract_to_memory(&archive, &reader.entries()[0]).unwrap();
    assert_eq!(extracted, b"Hello, RGSS3!");
}

#[test]
fn test_v1_round_trip_single_entry() {
    // a V1 archive ending exactly after one full entry record parses to
    // that one entry
    let mut writer = RgssWriter::for_version(RgssVersion::V1);
    writer.add_entry("Data/test.txt", b"Hello, RGSS!".to_vec());
    let archive = writer.write().unwrap();

    let reader = RgssReader::open(&archive).unwrap();
    assert_eq!(reader.entries().len(), 1);
    // forward slashes are normalised to backslashes on add
    assert_eq!(reader.entries()[0].name, "Data\\test.txt");
    assert_eq!(reader.entries()[0].size, 12);
    let extracted = reader.extract_to_memory(&archive, &reader.entries()[0]).unwrap();
    assert_eq!(extracted, b"Hello, RGSS!");
}

#[test]
fn test_v1_partial_length_prefix_terminates() {
    // a V1 archive whose trailing record has only part of the length
    // field ends cleanly with the entries read so far
    let mut writer = RgssWriter::for_version(RgssVersion::V1);
    writer.add_entry("Data\\a.txt", b"abc".to_vec());
    let mut archive = writer.write().unwrap();
    // two stray bytes: a partial length prefix of a next record
    archive.push(0x42);
    archive.push(0x42);

    let reader = RgssReader::open(&archive).unwrap();
    assert_eq!(reader.entries().len(), 1);
    let extracted = reader.extract_to_memory(&archive, &reader.entries()[0]).unwrap();
    assert_eq!(extracted, b"abc");
}

#[test]
fn test_v3_round_trip_with_supplied_seed() {
    let mut writer = RgssWriter::for_version(RgssVersion::V3).with_v3_key(0x12345678);
    writer.add_entry("Data\\test.txt", b"Hello, RGSS!".to_vec());
    let archive = writer.write().unwrap();

    let reader = RgssReader::open(&archive).unwrap();
    assert_eq!(reader.entries().len(), 1);
    assert_eq!(reader.entries()[0].name, "Data\\test.txt");
    let extracted = reader.extract_to_memory(&archive, &reader.entries()[0]).unwrap();
    assert_eq!(extracted, b"Hello, RGSS!");

    // a second write with a different seed still yields the same entries
    let mut writer2 = RgssWriter::for_version(RgssVersion::V3).with_v3_key(0xCAFEBABE);
    writer2.add_entry("Data\\test.txt", b"Hello, RGSS!".to_vec());
    let archive2 = writer2.write().unwrap();
    assert_ne!(archive, archive2);

    let reader2 = RgssReader::open(&archive2).unwrap();
    assert_eq!(reader2.entries().len(), 1);
    assert_eq!(reader2.entries()[0].name, "Data\\test.txt");
    let extracted2 = reader2.extract_to_memory(&archive2, &reader2.entries()[0]).unwrap();
    assert_eq!(extracted2, b"Hello, RGSS!");
}

#[test]
fn test_multi_entry_order_preserved() {
    let mut writer = RgssWriter::for_version(RgssVersion::V3).with_v3_key(7);
    writer.add_entry("Data\\one.bin", vec![1, 2, 3]);
    writer.add_entry("Data\\two.bin", vec![4, 5, 6, 7]);
    writer.add_entry("Data\\three.bin", vec![]);
    let archive = writer.write().unwrap();

    let reader = RgssReader::open(&archive).unwrap();
    let names: Vec<&str> = reader.entries().iter().map(|e| e.name.as_str()).collect();
    assert_eq!(names, vec!["Data\\one.bin", "Data\\two.bin", "Data\\three.bin"]);
    assert_eq!(
        reader.extract_to_memory(&archive, &reader.entries()[1]).unwrap(),
        vec![4, 5, 6, 7]
    );
    assert_eq!(
        reader.extract_to_memory(&archive, &reader.entries()[2]).unwrap(),
        Vec::<u8>::new()
    );
}

#[test]
fn test_writer_rejects_oversized_name() {
    let mut writer = RgssWriter::for_version(RgssVersion::V1);
    let long_name: String = std::iter::repeat('a').take(1025).collect();
    writer.add_entry(&long_name, b"x".to_vec());
    assert!(writer.write().is_err());
}

#[test]
fn test_writer_rejects_empty_name() {
    let mut writer = RgssWriter::for_version(RgssVersion::V1);
    writer.add_entry("", b"x".to_vec());
    assert!(writer.write().is_err());
}

#[test]
fn test_v1_partial_trailing_length_prefix_is_benign() {
    let mut writer = RgssWriter::for_version(RgssVersion::V1);
    writer.add_entry("Data\\a.bin", b"alpha".to_vec());
    writer.add_entry("Data\\b.bin", b"beta".to_vec());
    let mut archive = writer.write().unwrap();
    archive.extend_from_slice(&[0x12, 0x34]);

    let reader = RgssReader::open(&archive).unwrap();
    assert_eq!(reader.entries().len(), 2);
    assert_eq!(reader.entries()[0].name, "Data\\a.bin");
    assert_eq!(reader.entries()[1].name, "Data\\b.bin");
    assert_eq!(
        reader.extract_to_memory(&archive, &reader.entries()[0]).unwrap(),
        b"alpha".to_vec()
    );
    assert_eq!(
        reader.extract_to_memory(&archive, &reader.entries()[1]).unwrap(),
        b"beta".to_vec()
    );
}

use flate2::write::GzEncoder;
use flate2::Compression;
use ltk_godot::archive::{finish_read, Archive, CompressionKind, Entry};
use ltk_godot::checksum::checksum;
use ltk_godot::error::ImportError;
use ruzstd::encoding::{compress_to_vec, CompressionLevel};
use std::io::Write;

struct Item {
    hash: u64,
    kind: u8,
    stored: Vec<u8>,
    content: Vec<u8>,
}

fn put_entry(out: &mut Vec<u8>, item: &Item, offset: u32, wide: bool) {
    out.extend_from_slice(&item.hash.to_le_bytes());
    out.extend_from_slice(&offset.to_le_bytes());
    out.extend_from_slice(&(item.stored.len() as u32).to_le_bytes());
    out.extend_from_slice(&(item.content.len() as u32).to_le_bytes());
    out.push(item.kind);
    if wide {
        out.extend_from_slice(&[0, 0, 0]);
        out.extend_from_slice(&checksum(&item.content).to_le_bytes());
    } else {
        out.extend_from_slice(&[0, 0, 0]);
    }
}

fn build(major: u8, items: &[Item]) -> Vec<u8> {
    let wide = major != 1;
    let mut out = vec![b'R', b'W', major, 0];
    if wide {
        out.extend_from_slice(&[0u8; 264]);
    } else {
        out.extend_from_slice(&12u16.to_le_bytes());
        out.extend_from_slice(&24u16.to_le_bytes());
    }
    out.extend_from_slice(&(items.len() as u32).to_le_bytes());
    let stride = if wide { 32 } else { 24 };
    let mut offset = (out.len() + stride * items.len()) as u32;
    for item in items {
        put_entry(&mut out, item, offset, wide);
        offset += item.stored.len() as u32;
    }
    for item in items {
        out.extend_from_slice(&item.stored);
    }
    out
}

fn gzip(content: &[u8]) -> Vec<u8> {
    let mut encoder = GzEncoder::new(Vec::new(), Compression::default());
    encoder.write_all(content).unwrap();
    encoder.finish().unwrap()
}

fn zstd_raw_frame(content: &[u8]) -> Vec<u8> {
    assert!(content.len() >= 256 && content.len() < 65536 + 256);
    let mut out = vec![0x28, 0xB5, 0x2F, 0xFD];
    out.push(0x60);
    out.extend_from_slice(&((content.len() - 256) as u16).to_le_bytes());
    let header = ((content.len() as u32) << 3) | 1;
    out.extend_from_slice(&header.to_le_bytes()[..3]);
    out.extend_from_slice(content);
    out
}

fn pattern(len: usize, seed: u8) -> Vec<u8> {
    (0..len).map(|i| (i as u8).wrapping_mul(31).wrapping_add(seed)).collect()
}

fn stored(hash: u64, content: Vec<u8>) -> Item {
    Item { hash, kind: 0, stored: content.clone(), content }
}

#[test]
fn open_reads_both_revisions() {
    for major in [1u8, 3u8] {
        let bytes = build(major, &[stored(5, pattern(10, 1)), stored(9, pattern(3, 2))]);
        let archive = Archive::open(bytes.clone()).unwrap();
        assert_eq!(archive.major, major);
        assert_eq!(archive.entry_count(), 2);
        assert_eq!(archive.entries[0].hash, 5);
        assert_eq!(archive.entries[1].hash, 9);
        assert_eq!(archive.entries[0].kind, CompressionKind::Stored);
        assert_eq!(archive.entries[0].checksum.is_some(), major == 3);
        assert_eq!(archive.data, bytes);
    }
}

#[test]
fn open_rejects_bad_headers() {
    assert_eq!(
        Archive::open(vec![]).err(),
        Some(ImportError::TruncatedHeader { needed: 4, available: 0 })
    );
    assert_eq!(Archive::open(vec![b'X', b'W', 3, 0]).err(), Some(ImportError::InvalidMagic));
    assert_eq!(
        Archive::open(vec![b'R', b'W', 2, 7]).err(),
        Some(ImportError::UnsupportedVersion { major: 2, minor: 7 })
    );
    assert_eq!(
        Archive::open(vec![b'R', b'W', 3, 0, 1, 2]).err(),
        Some(ImportError::TruncatedHeader { needed: 272, available: 6 })
    );
    let mut odd = build(1, &[]);
    odd[6] = 32;
    assert_eq!(
        Archive::open(odd).err(),
        Some(ImportError::UnsupportedVersion { major: 1, minor: 0 })
    );
    let mut short = build(3, &[stored(1, vec![])]);
    short.truncate(272 + 31);
    assert_eq!(
        Archive::open(short).err(),
        Some(ImportError::TruncatedHeader { needed: 304, available: 303 })
    );
}

#[test]
fn open_rejects_a_table_out_of_order() {
    let bytes = build(3, &[stored(1, vec![]), stored(7, vec![]), stored(7, vec![]), stored(2, vec![])]);
    assert_eq!(Archive::open(bytes).err(), Some(ImportError::UnsortedEntries { position: 2 }));
}

#[test]
fn lookup_on_tables_of_every_size() {
    let empty = Archive::open(build(3, &[])).unwrap();
    assert_eq!(empty.lookup(0), None);
    let one = Archive::open(build(1, &[stored(4, vec![1])])).unwrap();
    assert_eq!(one.lookup(4).map(|e| e.hash), Some(4));
    assert_eq!(one.lookup(3), None);
    assert_eq!(one.lookup(5), None);
    let hashes: Vec<u64> = vec![2, 3, 10, 11, 500, u64::MAX];
    let items: Vec<Item> = hashes.iter().map(|h| stored(*h, vec![*h as u8])).collect();
    let many = Archive::open(build(3, &items)).unwrap();
    for (i, h) in hashes.iter().enumerate() {
        let found = many.lookup(*h).unwrap();
        assert_eq!(found, many.entries[i]);
    }
    for absent in [0u64, 1, 4, 9, 12, 499, 501, u64::MAX - 1] {
        assert_eq!(many.lookup(absent), None);
    }
}

#[test]
fn read_returns_stored_and_expanded_payloads() {
    let a = pattern(128, 3);
    let b = pattern(512, 9);
    let items = [
        stored(0xA, a.clone()),
        Item { hash: 0xB, kind: 1, stored: gzip(&b), content: b.clone() },
    ];
    let archive = Archive::open(build(3, &items)).unwrap();
    let got_a = archive.read(&archive.lookup(0xA).unwrap()).unwrap();
    assert_eq!(got_a.len(), 128);
    assert_eq!(got_a, a);
    let got_b = archive.read(&archive.lookup(0xB).unwrap()).unwrap();
    assert_eq!(got_b.len(), 512);
    assert_eq!(got_b, b);
}

#[test]
fn read_expands_zstandard_frames() {
    let content = pattern(512, 77);
    let items = [Item { hash: 1, kind: 3, stored: zstd_raw_frame(&content), content: content.clone() }];
    let archive = Archive::open(build(3, &items)).unwrap();
    assert_eq!(archive.read(&archive.entries[0]).unwrap(), content);
}

#[test]
fn read_reports_each_failure() {
    let content = pattern(64, 5);
    let archive = Archive::open(build(3, &[stored(1, content.clone())])).unwrap();
    let good = archive.entries[0];
    let beyond = Entry { offset: archive.data.len() as u32 - 10, compressed_len: 11, ..good };
    assert_eq!(
        archive.read(&beyond).err(),
        Some(ImportError::TruncatedData {
            offset: beyond.offset as u64,
            length: 11,
            available: archive.data.len() as u64
        })
    );
    let not_gzip = Entry { kind: CompressionKind::Deflate, ..good };
    assert_eq!(archive.read(&not_gzip).err(), Some(ImportError::DecompressionError));
    let not_zstd = Entry { kind: CompressionKind::Zstd, ..good };
    assert_eq!(archive.read(&not_zstd).err(), Some(ImportError::DecompressionError));
    let unknown = Entry { kind: CompressionKind::Unsupported(4), ..good };
    assert_eq!(archive.read(&unknown).err(), Some(ImportError::DecompressionError));
    let wrong_len = Entry { uncompressed_len: 63, ..good };
    assert_eq!(archive.read(&wrong_len).err(), Some(ImportError::DecompressionError));
    let wrong_sum = Entry { checksum: Some(1), ..good };
    assert_eq!(
        archive.read(&wrong_sum).err(),
        Some(ImportError::ChecksumMismatch { expected: 1, found: checksum(&content) })
    );
    let no_sum = Entry { checksum: None, ..good };
    assert_eq!(archive.read(&no_sum).unwrap(), content);
}

#[test]
fn finish_read_checks_length_and_checksum() {
    let entry = Entry {
        hash: 0,
        offset: 0,
        compressed_len: 0,
        uncompressed_len: 3,
        kind: CompressionKind::Deflate,
        duplicate: false,
        checksum: Some(checksum(b"abc")),
    };
    assert_eq!(finish_read(&entry, Some(b"abc".to_vec())), Ok(b"abc".to_vec()));
    assert_eq!(finish_read(&entry, None), Err(ImportError::DecompressionError));
    assert_eq!(finish_read(&entry, Some(b"ab".to_vec())), Err(ImportError::DecompressionError));
    assert_eq!(
        finish_read(&entry, Some(b"abd".to_vec())),
        Err(ImportError::ChecksumMismatch { expected: checksum(b"abc"), found: checksum(b"abd") })
    );
}

#[test]
fn checksum_of_known_inputs() {
    assert_eq!(checksum(b""), 0xcbf29ce484222325);
    assert_eq!(checksum(b"a"), 0xaf63dc4c8601ec8c);
    assert_eq!(checksum(b"foobar"), 0x85944171f73967e8);
}

#[test]
fn validity_of_an_archive_is_the_order_of_its_table() {
    let mut archive = Archive::open(build(3, &[stored(1, vec![]), stored(2, vec![]), stored(9, vec![])])).unwrap();
    assert!(archive.is_valid());
    archive.entries.swap(1, 2);
    assert!(!archive.is_valid());
    archive.entries.truncate(1);
    assert!(archive.is_valid());
    archive.entries.clear();
    assert!(archive.is_valid());
    let mut twice = Archive::open(build(1, &[stored(4, vec![]), stored(5, vec![])])).unwrap();
    twice.entries[1].hash = 4;
    assert!(!twice.is_valid());
}

#[test]
fn ranges_are_tested_against_the_length_of_the_archive() {
    let archive = Archive::open(build(3, &[stored(1, pattern(10, 0))])).unwrap();
    let entry = archive.entries[0];
    assert!(archive.holds_range(&entry));
    let len = archive.data.len() as u32;
    assert!(archive.holds_range(&Entry { offset: len, compressed_len: 0, ..entry }));
    assert!(!archive.holds_range(&Entry { offset: len, compressed_len: 1, ..entry }));
    assert!(!archive.holds_range(&Entry { offset: u32::MAX, compressed_len: u32::MAX, ..entry }));
}

#[test]
fn read_expands_compressed_zstandard_frames() {
    let content: Vec<u8> = (0..4096u32).map(|i| (i % 7) as u8 * 3).collect();
    let packed = compress_to_vec(&content[..], CompressionLevel::Fastest);
    assert!(packed.len() < content.len());
    let items = [
        stored(1, pattern(5, 2)),
        Item { hash: 2, kind: 3, stored: packed.clone(), content: content.clone() },
    ];
    let archive = Archive::open(build(3, &items)).unwrap();
    assert_eq!(archive.read(&archive.lookup(2).unwrap()).unwrap(), content);
    let too_small = Entry { uncompressed_len: 4000, ..archive.entries[1] };
    assert_eq!(archive.read(&too_small).err(), Some(ImportError::DecompressionError));
    let too_large = Entry { uncompressed_len: 5000, ..archive.entries[1] };
    assert_eq!(archive.read(&too_large).err(), Some(ImportError::DecompressionError));
    let mut damaged = build(3, &items);
    let at = damaged.len() - packed.len() + 6;
    damaged[at] ^= 0xff;
    damaged[at + 1] ^= 0xff;
    let broken = Archive::open(damaged).unwrap();
    assert!(broken.read(&broken.entries[1]).is_err());
}

#[test]
fn read_refuses_a_damaged_gzip_stream() {
    let content = pattern(300, 1);
    let mut packed = gzip(&content);
    let last = packed.len() - 5;
    packed[last] ^= 0x55;
    let items = [Item { hash: 8, kind: 1, stored: packed, content }];
    let archive = Archive::open(build(1, &items)).unwrap();
    assert_eq!(archive.read(&archive.entries[0]).err(), Some(ImportError::DecompressionError));
}

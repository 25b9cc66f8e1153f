use std::io::Cursor;
use std::io::Read;

use zipstream::archive::Archive;
use zipstream::archive::FileOptions;
use zipstream::compression::Compressor;
use zipstream::error::ArchiveError;
use zipstream::types::FileDateTime;

fn u16_at(bytes: &[u8], at: usize) -> u16 {
    u16::from_le_bytes([bytes[at], bytes[at + 1]])
}

fn u32_at(bytes: &[u8], at: usize) -> u32 {
    u32::from_le_bytes([bytes[at], bytes[at + 1], bytes[at + 2], bytes[at + 3]])
}

#[test]
fn headed_entry_byte_for_byte() {
    let mut archive = Archive::new(Vec::new());
    archive
        .append_file_no_extend("file1.txt", FileDateTime::Zero, Compressor::Store(), b"hello\n")
        .unwrap();
    let mut expected: Vec<u8> = Vec::new();
    expected.extend_from_slice(&[0x50, 0x4b, 0x03, 0x04, 20, 0, 0, 0, 0, 0, 0, 0, 0, 0]);
    expected.extend_from_slice(&[0x20, 0x30, 0x3a, 0x36, 6, 0, 0, 0, 6, 0, 0, 0]);
    expected.extend_from_slice(&[9, 0, 0, 0]);
    expected.extend_from_slice(b"file1.txt");
    expected.extend_from_slice(b"hello\n");
    assert_eq!(archive.get_ref(), expected.as_slice());
    assert_eq!(archive.get_archive_size(), 45);
}

#[test]
fn streamed_and_headed_entries_share_an_archive() {
    let content = b"one and the same content, one and the same content".to_vec();
    let moment =
        FileDateTime::Custom { year: 2001, month: 2, day: 3, hour: 4, minute: 5, second: 6 };
    let mut archive = Archive::new(Vec::new());
    archive
        .append_file("streamed.txt", &content, &FileOptions::default())
        .unwrap();
    let second = archive.get_archive_size();
    archive
        .append_file_no_extend("headed.txt", moment, Compressor::Deflate(), &content)
        .unwrap();
    let third = archive.get_archive_size();
    archive
        .append_file("again.txt", &content, &FileOptions::default().compression_method(Compressor::BZip2()))
        .unwrap();
    archive.get_archive_comment("both kinds".to_string());
    archive.finalize().unwrap();
    let bytes = archive.retrieve_writer();

    assert_eq!(u16_at(&bytes, 6), 0x0008);
    assert_eq!(&bytes[14..26], &[0u8; 12]);
    assert_eq!(u16_at(&bytes, second + 6), 0x0000);
    assert_eq!(u32_at(&bytes, second + 14), crc32fast::hash(&content));
    assert_eq!(u32_at(&bytes, second + 22) as usize, content.len());
    assert_eq!(u32_at(&bytes, third), 0x04034b50);
    assert_eq!(u16_at(&bytes, third + 6), 0x0008);

    let mut reader = zip::ZipArchive::new(Cursor::new(bytes)).unwrap();
    assert_eq!(reader.len(), 3);
    assert_eq!(reader.comment(), b"both kinds");
    for (index, name) in ["streamed.txt", "headed.txt", "again.txt"].into_iter().enumerate() {
        let mut file = reader.by_index(index).unwrap();
        assert_eq!(file.name().unwrap(), name);
        let mut read = Vec::new();
        file.read_to_end(&mut read).unwrap();
        assert_eq!(read, content);
    }
    let headed = reader.by_index(1).unwrap();
    assert_eq!(headed.header_start(), second as u64);
    let modified = headed.last_modified().unwrap();
    assert_eq!((modified.year(), modified.month(), modified.day()), (2001, 2, 3));
    assert_eq!((modified.hour(), modified.minute(), modified.second()), (4, 5, 6));
}

#[test]
fn failed_headed_append_writes_nothing() {
    let mut archive = Archive::new(Vec::new());
    archive
        .append_file_no_extend("kept", FileDateTime::Zero, Compressor::Zstd(), b"kept")
        .unwrap();
    let before = archive.get_ref().to_vec();
    match archive.append_file_no_extend("lost", FileDateTime::Zero, Compressor::Unknown(5), b"lost")
    {
        Err(ArchiveError::UnsuportedCompressionMethod(code)) => assert_eq!(code, 5),
        other => panic!("unexpected result {:?}", other),
    }
    assert_eq!(archive.get_ref(), before.as_slice());
    match archive.append_file("lost", b"lost", &FileOptions::default().compression_method(Compressor::Unknown(6)))
    {
        Err(ArchiveError::UnsuportedCompressionMethod(code)) => assert_eq!(code, 6),
        other => panic!("unexpected result {:?}", other),
    }
    assert_eq!(archive.get_ref(), before.as_slice());
    archive.finalize().unwrap();
    let reader = zip::ZipArchive::new(Cursor::new(archive.retrieve_writer())).unwrap();
    assert_eq!(reader.len(), 1);
}

#[test]
fn empty_archive_with_a_comment() {
    let mut archive = Archive::new(Vec::new());
    archive.get_archive_comment("\u{e9}".to_string());
    archive.finalize().unwrap();
    let bytes = archive.retrieve_writer();
    assert_eq!(bytes.len(), 24);
    assert_eq!(&bytes[..4], b"PK\x05\x06");
    assert_eq!(&bytes[4..20], &[0u8; 16]);
    assert_eq!(&bytes[20..], &[2, 0, 0xc3, 0xa9]);
}

#[test]
fn encoded_entries_of_both_kinds() {
    let options = FileOptions::default().compression_method(Compressor::Store());
    let mut archive = Archive::new(Vec::new());
    archive.append_encoded("s", &options, 0xcbf43926, 9, b"123456789");
    let second = archive.get_archive_size();
    assert_eq!(second, 30 + 1 + 9 + 16);
    archive.append_encoded_no_extend("h", &options, 0xcbf43926, 9, b"123456789");
    assert_eq!(archive.get_archive_size(), second + 30 + 1 + 9);
    archive.finalize().unwrap();
    let bytes = archive.retrieve_writer();
    assert_eq!(u16_at(&bytes, 6), 0x0008);
    assert_eq!(u16_at(&bytes, second + 6), 0x0000);
    assert_eq!(u32_at(&bytes, second + 14), 0xcbf43926);

    let mut reader = zip::ZipArchive::new(Cursor::new(bytes)).unwrap();
    assert_eq!(reader.len(), 2);
    for index in 0..2 {
        let mut file = reader.by_index(index).unwrap();
        let mut read = Vec::new();
        file.read_to_end(&mut read).unwrap();
        assert_eq!(read, b"123456789");
    }
}

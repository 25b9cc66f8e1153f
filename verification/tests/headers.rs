use zipstream::archive::FileOptions;
use zipstream::archive_common::build_central_directory_file_header;
use zipstream::archive_common::build_data_descriptor;
use zipstream::archive_common::build_file_header;
use zipstream::archive_common::build_local_file_header;
use zipstream::archive_common::build_size_fields;
use zipstream::archive_common::new_file_entry;
use zipstream::compression::Compressor;
use zipstream::descriptor::ArchiveDescriptor;
use zipstream::types::FileDateTime;

fn moment() -> FileDateTime {
    FileDateTime::Custom { year: 2024, month: 5, day: 17, hour: 13, minute: 45, second: 58 }
}

fn options(compressor: Compressor) -> FileOptions {
    FileOptions::default().compression_method(compressor).last_modified_time(moment())
}

#[test]
fn local_header_of_a_streamed_entry() {
    let (header, entry) = build_file_header(
        "a.txt",
        &options(Compressor::Deflate()),
        Compressor::Deflate(),
        0x0102_0304,
        true,
    );
    let expected: Vec<u8> = vec![
        0x50, 0x4b, 0x03, 0x04, // signature
        20, 0, // version needed
        0x08, 0x00, // flags
        8, 0, // method
        0xbd, 0x6d, // time 28093
        0xb1, 0x58, // date 22705
        0, 0, 0, 0, // checksum
        0, 0, 0, 0, // compressed size
        0, 0, 0, 0, // uncompressed size
        5, 0, // name length
        0, 0, // extra field length
        b'a', b'.', b't', b'x', b't',
    ];
    assert_eq!(header.buffer(), expected.as_slice());
    assert_eq!(header.len(), 30 + 5);

    assert_eq!(entry.file_name_as_bytes, b"a.txt");
    assert_eq!(entry.file_name_len, 5);
    assert_eq!(entry.offset, 0x0102_0304);
    assert_eq!(entry.general_purpose_flags, 0x0008);
    assert_eq!(entry.compression_method, 8);
    assert_eq!(entry.version_needed, 20);
    assert_eq!(entry.version_needed(), 20);
    assert_eq!(entry.version_made_by(), (3 << 8) | 46);
    assert_eq!(entry.compressor, Compressor::Deflate());
    assert_eq!(entry.last_mod_file_date, 22705);
    assert_eq!(entry.last_mod_file_time, 28093);
    assert_eq!(entry.extra_field_length, 0);
    assert_eq!(entry.permissions, 0o644);
    assert_eq!((entry.crc32, entry.compressed_size, entry.uncompressed_size), (0, 0, 0));
}

#[test]
fn local_header_of_a_headed_entry_has_no_descriptor_flag() {
    let (header, entry) =
        build_file_header("a.txt", &options(Compressor::BZip2()), Compressor::BZip2(), 0, false);
    assert_eq!(entry.general_purpose_flags, 0);
    assert_eq!(&header.buffer()[4..10], &[46, 0, 0, 0, 12, 0]);
}

#[test]
fn utf8_flag_is_set_by_multibyte_names_only() {
    let cases = [
        ("plain.txt", false),
        ("", false),
        ("~!@#$%^&*() .txt", false),
        ("\u{7f}", false),
        ("\u{80}", true),
        ("caf\u{e9}.txt", true),
        ("\u{65e5}\u{672c}\u{8a9e}.txt", true),
        ("\u{1f600}", true),
    ];
    for (name, multibyte) in cases {
        assert_eq!(name.len() > name.chars().count(), multibyte, "{:?}", name);
        for descriptor in [false, true] {
            let entry = new_file_entry(
                name,
                &FileOptions::default(),
                Compressor::Store(),
                0,
                descriptor,
            );
            assert_eq!(entry.general_purpose_flags & 0x0800 != 0, multibyte, "{:?}", name);
            assert_eq!(entry.general_purpose_flags & 0x0008 != 0, descriptor, "{:?}", name);
            assert_eq!(entry.general_purpose_flags & !0x0808, 0);
        }
    }
}

#[test]
fn name_is_stored_as_its_utf8_bytes() {
    let (header, entry) = build_file_header(
        "caf\u{e9}",
        &FileOptions::default(),
        Compressor::Store(),
        0,
        false,
    );
    assert_eq!(entry.file_name_as_bytes, &[b'c', b'a', b'f', 0xc3, 0xa9]);
    assert_eq!(entry.file_name_len, 5);
    assert_eq!(&header.buffer()[26..28], &[5, 0]);
    assert_eq!(&header.buffer()[30..], &[b'c', b'a', b'f', 0xc3, 0xa9]);
    assert_eq!(&header.buffer()[6..8], &[0x00, 0x08]);
}

#[test]
fn name_length_is_stored_in_sixteen_bits() {
    let name = "n".repeat(65536 + 3);
    let (header, entry) =
        build_file_header(&name, &FileOptions::default(), Compressor::Store(), 0, false);
    assert_eq!(entry.file_name_len, 3);
    assert_eq!(entry.file_name_as_bytes.len(), 65539);
    assert_eq!(header.len(), 30 + 65539);
}

#[test]
fn header_with_sizes_and_data_descriptor() {
    let mut entry =
        new_file_entry("x", &options(Compressor::Store()), Compressor::Store(), 7, false);
    entry.crc32 = 0x363a3020;
    entry.compressed_size = 0x0000_0106;
    entry.uncompressed_size = 0x0a0b_0c0d;

    let fields = build_size_fields(&entry);
    assert_eq!(
        fields.buffer(),
        &[0x20, 0x30, 0x3a, 0x36, 0x06, 0x01, 0, 0, 0x0d, 0x0c, 0x0b, 0x0a]
    );

    let header = build_local_file_header(&entry);
    assert_eq!(&header.buffer()[..4], b"PK\x03\x04");
    assert_eq!(&header.buffer()[14..26], fields.buffer());
    assert_eq!(&header.buffer()[26..], &[1, 0, 0, 0, b'x']);

    let descriptor = build_data_descriptor(&entry);
    assert_eq!(descriptor.len(), 16);
    assert_eq!(&descriptor.buffer()[..4], &[0x50, 0x4b, 0x07, 0x08]);
    assert_eq!(&descriptor.buffer()[4..], fields.buffer());
}

#[test]
fn central_directory_file_header() {
    let given = options(Compressor::Zstd()).unix_permissions(0o600);
    let mut entry = new_file_entry("dir/b.bin", &given, Compressor::Zstd(), 0x11223344, true);
    entry.crc32 = 0xcbf43926;
    entry.compressed_size = 9;
    entry.uncompressed_size = 300;

    let mut header = ArchiveDescriptor::new(64);
    header.write_bytes(b"!");
    build_central_directory_file_header(&mut header, &entry);
    let expected: Vec<u8> = vec![
        b'!',
        0x50, 0x4b, 0x01, 0x02, // signature
        46, 3, // version made by
        20, 0, // version needed
        0x08, 0x00, // flags
        93, 0, // method
        0xbd, 0x6d, // time
        0xb1, 0x58, // date
        0x26, 0x39, 0xf4, 0xcb, // checksum
        9, 0, 0, 0, // compressed size
        0x2c, 0x01, 0, 0, // uncompressed size
        9, 0, // name length
        0, 0, // extra field length
        0, 0, // comment length
        0, 0, // disk number
        0, 0, // internal attributes
        0, 0, 0x80, 0x81, // external attributes: 0o100600 << 16
        0x44, 0x33, 0x22, 0x11, // offset of the local header
        b'd', b'i', b'r', b'/', b'b', b'.', b'b', b'i', b'n',
    ];
    assert_eq!(header.buffer(), expected.as_slice());
    assert_eq!(header.len(), 1 + 46 + 9);
}

#[test]
fn default_permissions_are_rw_r_r() {
    let entry = new_file_entry("f", &FileOptions::default(), Compressor::Store(), 0, true);
    let mut header = ArchiveDescriptor::new(64);
    build_central_directory_file_header(&mut header, &entry);
    let attributes = u32::from_le_bytes([
        header.buffer()[38],
        header.buffer()[39],
        header.buffer()[40],
        header.buffer()[41],
    ]);
    assert_eq!(attributes, 0o100644 << 16);
}

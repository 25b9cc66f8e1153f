//! The records of a ZIP archive as sequences of bytes.

use vstd::prelude::*;
use vstd::utf8::encode_scalar;
use vstd::utf8::encode_utf8;
use vstd::utf8::is_ascii_chars;
use crate::archive::FileOptionsView;
use crate::codec::crc32_checksum;
use crate::compression::Compressor;
use crate::constants::CENTRAL_DIRECTORY_END_SIGNATURE;
use crate::constants::CENTRAL_DIRECTORY_ENTRY_BASE_SIZE;
use crate::constants::CENTRAL_DIRECTORY_ENTRY_SIGNATURE;
use crate::constants::DATA_DESCRIPTOR_SIGNATURE;
use crate::constants::DESCRIPTOR_SIZE;
use crate::constants::FILE_HEADER_BASE_SIZE;
use crate::constants::FLAG_DATA_DESCRIPTOR;
use crate::constants::FLAG_UTF8;
use crate::constants::LOCAL_FILE_HEADER_SIGNATURE;
use crate::constants::MAX_COMMENT_LENGTH;
use crate::constants::UNIX_REGULAR_FILE;
use crate::constants::VERSION_MADE_BY;
use crate::descriptor::le_bytes_u16;
use crate::descriptor::le_bytes_u32;
use crate::types::EntryView;

verus! {

/// The name takes more bytes in UTF-8 than it has characters: at least one of its
/// characters is encoded in several bytes.
pub open spec fn is_multibyte(name: Seq<char>) -> bool {
    encode_utf8(name).len() > name.len()
}

/// The general purpose flags of an entry.
pub open spec fn entry_flags(deferred: bool, multibyte_name: bool) -> u16 {
    if deferred {
        if multibyte_name { 0x0808 } else { 0x0008 }
    } else {
        if multibyte_name { 0x0800 } else { 0x0000 }
    }
}

/// The flags hold every bit of `flag`.
pub open spec fn has_flag(flags: u16, flag: u16) -> bool {
    flags & flag == flag
}

/// The external attributes of a regular file with the given permission bits: its
/// Unix mode in the two high bytes.
pub open spec fn external_attributes(permissions: u32) -> u32 {
    ((UNIX_REGULAR_FILE + permissions % 512) * 65536) as u32
}

/// The record of an entry when its header is built: the payload is still to
/// come, so checksum and sizes are zero.
pub open spec fn new_entry(
    name: Seq<char>,
    options: FileOptionsView,
    compressor: Compressor,
    offset: u32,
    deferred: bool,
) -> EntryView {
    EntryView {
        name: encode_utf8(name),
        name_len: encode_utf8(name).len() as u16,
        compressed_size: 0,
        uncompressed_size: 0,
        crc32: 0,
        offset,
        time: options.last_modified_time.spec_ms_dos().1,
        date: options.last_modified_time.spec_ms_dos().0,
        compressor,
        flags: entry_flags(deferred, is_multibyte(name)),
        extra_field_length: 0,
        version_needed: compressor.spec_version_needed(),
        compression_method: compressor.spec_compression_method(),
        permissions: options.effective_permissions(),
    }
}

/// The record is that of an entry whose header is built for the given offset and
/// whose payload is still to come.
pub open spec fn is_new_entry(entry: EntryView, offset: u32, deferred: bool) -> bool {
    exists|name: Seq<char>, options: FileOptionsView|
        entry == #[trigger] new_entry(name, options, options.compressor, offset, deferred)
}

/// The record with the checksum and the sizes that the payload turned out to have.
pub open spec fn with_sizes(
    entry: EntryView,
    crc32: u32,
    compressed_size: u32,
    uncompressed_size: u32,
) -> EntryView {
    EntryView { crc32, compressed_size, uncompressed_size, ..entry }
}

/// The record of an entry whose payload, of `uncompressed_size` bytes and with
/// the checksum `crc32`, stands in the archive as the bytes `payload`.
pub open spec fn encoded_entry(
    name: Seq<char>,
    options: FileOptionsView,
    offset: nat,
    crc32: u32,
    uncompressed_size: nat,
    payload: Seq<u8>,
    deferred: bool,
) -> EntryView {
    with_sizes(
        new_entry(name, options, options.compressor, offset as u32, deferred),
        crc32,
        payload.len() as u32,
        uncompressed_size as u32,
    )
}

/// The record of an entry once its payload `source` has been encoded and written.
pub open spec fn written_entry(
    name: Seq<char>,
    options: FileOptionsView,
    offset: nat,
    source: Seq<u8>,
    deferred: bool,
) -> EntryView {
    encoded_entry(
        name,
        options,
        offset,
        crc32_checksum(source),
        source.len(),
        options.compressor.spec_encode(source, options.compression_level),
        deferred,
    )
}

/// The checksum, the compressed size and the uncompressed size of an entry, each
/// in four bytes.
pub open spec fn size_fields(entry: EntryView) -> Seq<u8> {
    le_bytes_u32(entry.crc32) + le_bytes_u32(entry.compressed_size) + le_bytes_u32(
        entry.uncompressed_size,
    )
}

/// The part of a local file header that stands before the checksum.
pub open spec fn local_file_header_start(entry: EntryView) -> Seq<u8> {
    le_bytes_u32(LOCAL_FILE_HEADER_SIGNATURE) + le_bytes_u16(entry.version_needed) + le_bytes_u16(
        entry.flags,
    ) + le_bytes_u16(entry.compression_method) + le_bytes_u16(entry.time) + le_bytes_u16(
        entry.date,
    )
}

/// The part of a local file header that stands behind the sizes.
pub open spec fn local_file_header_end(entry: EntryView) -> Seq<u8> {
    le_bytes_u16(entry.name_len) + le_bytes_u16(entry.extra_field_length) + entry.name
}

/// The local file header that holds the checksum and sizes of `entry`.
pub open spec fn local_file_header(entry: EntryView) -> Seq<u8> {
    local_file_header_start(entry) + size_fields(entry) + local_file_header_end(entry)
}

/// The local file header of `entry` with checksum and sizes left at zero.
pub open spec fn blank_local_file_header(entry: EntryView) -> Seq<u8> {
    local_file_header(with_sizes(entry, 0, 0, 0))
}

/// The data descriptor that follows the payload of `entry`.
pub open spec fn data_descriptor(entry: EntryView) -> Seq<u8> {
    le_bytes_u32(DATA_DESCRIPTOR_SIGNATURE) + size_fields(entry)
}

/// Everything that an entry puts into the archive before the central directory.
///
/// With the data descriptor flag the header leaves checksum and sizes at zero and
/// a data descriptor follows the payload; without it the header holds them and
/// the payload comes last.
pub open spec fn entry_bytes(entry: EntryView, payload: Seq<u8>) -> Seq<u8> {
    if has_flag(entry.flags, FLAG_DATA_DESCRIPTOR) {
        blank_local_file_header(entry) + payload + data_descriptor(entry)
    } else {
        local_file_header(entry) + payload
    }
}

/// The entries of an archive one after another, each with its payload.
pub open spec fn entries_bytes(entries: Seq<EntryView>, payloads: Seq<Seq<u8>>) -> Seq<u8>
    decreases entries.len(),
{
    if entries.len() == 0 {
        Seq::empty()
    } else {
        entries_bytes(entries.drop_last(), payloads.drop_last()) + entry_bytes(
            entries.last(),
            payloads.last(),
        )
    }
}

/// The central directory file header of `entry`.
pub open spec fn central_directory_file_header(entry: EntryView) -> Seq<u8> {
    le_bytes_u32(CENTRAL_DIRECTORY_ENTRY_SIGNATURE) + le_bytes_u16(VERSION_MADE_BY) + le_bytes_u16(
        entry.version_needed,
    ) + le_bytes_u16(entry.flags) + le_bytes_u16(entry.compression_method) + le_bytes_u16(
        entry.time,
    ) + le_bytes_u16(entry.date) + size_fields(entry) + le_bytes_u16(entry.name_len)
        + le_bytes_u16(0) + le_bytes_u16(0) + le_bytes_u16(0) + le_bytes_u16(0) + le_bytes_u32(
        external_attributes(entry.permissions),
    ) + le_bytes_u32(entry.offset) + entry.name
}

/// The central directory: the file header of every entry, in the order in which
/// the entries were appended.
pub open spec fn central_directory(entries: Seq<EntryView>) -> Seq<u8>
    decreases entries.len(),
{
    if entries.len() == 0 {
        Seq::empty()
    } else {
        central_directory(entries.drop_last()) + central_directory_file_header(entries.last())
    }
}

/// The end of central directory record.
pub open spec fn end_of_central_directory(
    entries: u16,
    central_directory_size: u32,
    central_directory_offset: u32,
    comment: Seq<u8>,
) -> Seq<u8> {
    le_bytes_u32(CENTRAL_DIRECTORY_END_SIGNATURE) + le_bytes_u16(0) + le_bytes_u16(0)
        + le_bytes_u16(entries) + le_bytes_u16(entries) + le_bytes_u32(central_directory_size)
        + le_bytes_u32(central_directory_offset) + le_bytes_u16(comment.len() as u16) + comment
}

/// What closes an archive: the central directory of `entries`, written where
/// `offset` bytes precede it, and the end record that describes it.
pub open spec fn archive_trailer(entries: Seq<EntryView>, offset: nat, comment: Seq<u8>) -> Seq<
    u8,
> {
    central_directory(entries) + end_of_central_directory(
        entries.len() as u16,
        central_directory(entries).len() as u32,
        offset as u32,
        comment,
    )
}

/// The part of a comment that the end record can hold: its first 65535 bytes.
pub open spec fn truncated_comment(comment: Seq<char>) -> Seq<u8> {
    let bytes = encode_utf8(comment);
    if bytes.len() <= MAX_COMMENT_LENGTH {
        bytes
    } else {
        bytes.take(MAX_COMMENT_LENGTH as int)
    }
}

/// A character takes one byte in UTF-8 exactly when it is ASCII, and more otherwise.
proof fn lemma_char_width(c: char)
    ensures
        '\0' <= c,
        encode_scalar(c as u32).len() >= 1,
        encode_scalar(c as u32).len() == 1 <==> c <= '\u{7f}',
{
}

/// The UTF-8 encoding of a name is never shorter than the name, and it has the
/// same length exactly when every character is ASCII.
pub proof fn lemma_multibyte_iff_not_ascii(name: Seq<char>)
    ensures
        encode_utf8(name).len() >= name.len(),
        is_multibyte(name) <==> !is_ascii_chars(name),
    decreases name.len(),
{
    if name.len() > 0 {
        let rest = name.drop_first();
        lemma_multibyte_iff_not_ascii(rest);
        lemma_char_width(name[0]);
        assert(encode_utf8(name).len() == encode_scalar(name[0] as u32).len() + encode_utf8(
            rest,
        ).len());
        if is_ascii_chars(name) {
            assert forall|i: int| 0 <= i < rest.len() implies '\0' <= #[trigger] rest[i]
                <= '\u{7f}' by {
                assert(rest[i] == name[i + 1]);
            }
        } else if name[0] <= '\u{7f}' {
            if is_ascii_chars(rest) {
                assert forall|i: int| 0 <= i < name.len() implies '\0' <= #[trigger] name[i]
                    <= '\u{7f}' by {
                    if i > 0 {
                        assert(name[i] == rest[i - 1]);
                    } else {
                        lemma_char_width(name[0]);
                    }
                }
            }
        }
    }
}

/// The flags of an entry hold the data descriptor bit and the UTF-8 bit exactly
/// as they were asked for.
pub proof fn lemma_entry_flags(deferred: bool, multibyte_name: bool)
    ensures
        has_flag(entry_flags(deferred, multibyte_name), FLAG_DATA_DESCRIPTOR)
            == deferred,
        has_flag(entry_flags(deferred, multibyte_name), FLAG_UTF8) == multibyte_name,
{
    assert(0x0808u16 & 0x0008 == 0x0008 && 0x0808u16 & 0x0800 == 0x0800) by (bit_vector);
    assert(0x0008u16 & 0x0008 == 0x0008 && 0x0008u16 & 0x0800 == 0) by (bit_vector);
    assert(0x0800u16 & 0x0008 == 0 && 0x0800u16 & 0x0800 == 0x0800) by (bit_vector);
    assert(0x0000u16 & 0x0008 == 0 && 0x0000u16 & 0x0800 == 0) by (bit_vector);
}

/// The record of an entry whose payload is still to come has the data descriptor
/// flag as it was asked for, and checksum and sizes at zero; filling them in
/// changes neither the flags nor anything else.
pub proof fn lemma_new_entry(entry: EntryView, offset: u32, deferred: bool)
    requires
        is_new_entry(entry, offset, deferred),
    ensures
        has_flag(entry.flags, FLAG_DATA_DESCRIPTOR) == deferred,
        exists|descriptor: bool, multibyte_name: bool|
            entry.flags == entry_flags(descriptor, multibyte_name),
        with_sizes(entry, 0, 0, 0) == entry,
        entry.offset == offset,
        entry.name_len == entry.name.len() as u16,
        entry.extra_field_length == 0,
        entry.version_needed == entry.compressor.spec_version_needed(),
        entry.compression_method == entry.compressor.spec_compression_method(),
        entry.permissions <= 0o777,
{
    let (name, options) = choose|name: Seq<char>, options: FileOptionsView|
        entry == #[trigger] new_entry(name, options, options.compressor, offset, deferred);
    lemma_entry_flags(deferred, is_multibyte(name));
}

/// The number of bytes that an entry puts into the archive before the central
/// directory: its local header with the name, its payload and, where the data
/// descriptor flag is set, its data descriptor.
pub open spec fn entry_length(entry: EntryView, payload: Seq<u8>) -> nat {
    let descriptor: nat = if has_flag(entry.flags, FLAG_DATA_DESCRIPTOR) {
        DESCRIPTOR_SIZE as nat
    } else {
        0
    };
    FILE_HEADER_BASE_SIZE as nat + entry.name.len() + payload.len() + descriptor
}

/// The bytes of an entry are as many as its length says.
pub proof fn lemma_entry_length(entry: EntryView, payload: Seq<u8>)
    ensures
        entry_bytes(entry, payload).len() == entry_length(entry, payload),
        local_file_header(entry).len() == FILE_HEADER_BASE_SIZE + entry.name.len(),
        blank_local_file_header(entry).len() == FILE_HEADER_BASE_SIZE + entry.name.len(),
        data_descriptor(entry).len() == DESCRIPTOR_SIZE,
        central_directory_file_header(entry).len() == CENTRAL_DIRECTORY_ENTRY_BASE_SIZE
            + entry.name.len(),
{
}

} // verus!

//! What holds of every archive that the writers produce.

use vstd::prelude::*;
use vstd::utf8::encode_utf8;
use vstd::utf8::is_ascii_chars;
use crate::archive::FileOptionsView;
use crate::codec::crc32_checksum;
use crate::compression::Compressor;
use crate::constants::CENTRAL_DIRECTORY_END_SIGNATURE;
use crate::constants::CENTRAL_DIRECTORY_ENTRY_BASE_SIZE;
use crate::constants::DESCRIPTOR_SIZE;
use crate::constants::END_OF_CENTRAL_DIRECTORY_SIZE;
use crate::constants::FILE_HEADER_BASE_SIZE;
use crate::constants::FILE_HEADER_CRC_OFFSET;
use crate::constants::FLAG_DATA_DESCRIPTOR;
use crate::constants::FLAG_UTF8;
use crate::descriptor::le_bytes_u16;
use crate::descriptor::le_bytes_u32;
use crate::layout::archive_trailer;
use crate::layout::blank_local_file_header;
use crate::layout::central_directory;
use crate::layout::central_directory_file_header;
use crate::layout::data_descriptor;
use crate::layout::end_of_central_directory;
use crate::layout::entries_bytes;
use crate::layout::entry_bytes;
use crate::layout::entry_length;
use crate::layout::has_flag;
use crate::layout::is_multibyte;
use crate::layout::lemma_entry_flags;
use crate::layout::lemma_entry_length;
use crate::layout::lemma_multibyte_iff_not_ascii;
use crate::layout::local_file_header;
use crate::layout::new_entry;
use crate::layout::size_fields;
use crate::model::ArchiveView;
use crate::types::EntryView;
use crate::zip_archive::ZipArchive;
use crate::zip_archive_no_stream::ZipArchiveNoStream;

verus! {

/// A window into a part of a sequence is a window into the sequence.
proof fn lemma_window(whole: Seq<u8>, start: int, part: Seq<u8>, from: int, to: int)
    requires
        0 <= start,
        start + part.len() <= whole.len(),
        whole.subrange(start, start + part.len()) == part,
        0 <= from <= to <= part.len(),
    ensures
        whole.subrange(start + from, start + to) == part.subrange(from, to),
{
    assert(whole.subrange(start + from, start + to) =~= whole.subrange(
        start,
        start + part.len(),
    ).subrange(from, to));
}

/// A window into the front of two joined sequences is a window into the first.
proof fn lemma_window_front(front: Seq<u8>, back: Seq<u8>, from: int, to: int)
    requires
        0 <= from <= to <= front.len(),
    ensures
        (front + back).subrange(from, to) == front.subrange(from, to),
{
    assert((front + back).subrange(from, to) =~= front.subrange(from, to));
}

/// A window into the back of two joined sequences is a window into the second.
proof fn lemma_window_back(front: Seq<u8>, back: Seq<u8>, from: int, to: int)
    requires
        0 <= from <= to <= back.len(),
    ensures
        (front + back).subrange(front.len() + from, front.len() + to) == back.subrange(from, to),
{
    assert((front + back).subrange(front.len() + from, front.len() + to) =~= back.subrange(
        from,
        to,
    ));
}

/// The fields of a record that is made of eight fixed fields and a tail.
proof fn lemma_record_fields(
    signature: Seq<u8>,
    disk: Seq<u8>,
    directory_disk: Seq<u8>,
    entries_here: Seq<u8>,
    entries: Seq<u8>,
    size: Seq<u8>,
    offset: Seq<u8>,
    comment_length: Seq<u8>,
    comment: Seq<u8>,
)
    requires
        signature.len() == 4,
        disk.len() == 2,
        directory_disk.len() == 2,
        entries_here.len() == 2,
        entries.len() == 2,
        size.len() == 4,
        offset.len() == 4,
        comment_length.len() == 2,
    ensures
        ({
            let record = signature + disk + directory_disk + entries_here + entries + size + offset
                + comment_length + comment;
            &&& record.len() == 22 + comment.len()
            &&& record.subrange(0, 4) == signature
            &&& record.subrange(4, 8) == disk + directory_disk
            &&& record.subrange(8, 10) == entries_here
            &&& record.subrange(10, 12) == entries
            &&& record.subrange(12, 16) == size
            &&& record.subrange(16, 20) == offset
            &&& record.subrange(20, 22) == comment_length
            &&& record.subrange(22, record.len() as int) == comment
        }),
{
    let record = signature + disk + directory_disk + entries_here + entries + size + offset
        + comment_length + comment;
    assert(record.subrange(0, 4) =~= signature);
    assert(record.subrange(4, 8) =~= disk + directory_disk);
    assert(record.subrange(8, 10) =~= entries_here);
    assert(record.subrange(10, 12) =~= entries);
    assert(record.subrange(12, 16) =~= size);
    assert(record.subrange(16, 20) =~= offset);
    assert(record.subrange(20, 22) =~= comment_length);
    assert(record.subrange(22, record.len() as int) =~= comment);
}

/// The lengths of the first `count` entries together.
pub open spec fn lengths_before(archive: ArchiveView, count: int) -> nat
    decreases count,
{
    if count <= 0 {
        0
    } else {
        lengths_before(archive, count - 1) + entry_length(
            archive.entries[count - 1],
            archive.payloads[count - 1],
        )
    }
}

/// The position in the archive at which entry `index` ends.
pub open spec fn entry_end(archive: ArchiveView, index: int) -> int {
    (archive.start_of(index) + entry_length(archive.entries[index], archive.payloads[index]))
        as int
}

/// Twelve zero bytes: checksum and sizes as a streamed entry's local header
/// holds them.
pub open spec fn blank_size_fields() -> Seq<u8> {
    Seq::new(12, |index: int| 0u8)
}

/// The UTF-8 flag of an entry is set if and only if the name takes more bytes
/// than it has characters; a name of ASCII characters alone never sets it.
pub proof fn lemma_utf8_flag(
    name: Seq<char>,
    options: FileOptionsView,
    compressor: Compressor,
    offset: u32,
    deferred: bool,
)
    ensures
        has_flag(new_entry(name, options, compressor, offset, deferred).flags, FLAG_UTF8)
            <==> encode_utf8(name).len() > name.len(),
        is_ascii_chars(name) ==> !has_flag(
            new_entry(name, options, compressor, offset, deferred).flags,
            FLAG_UTF8,
        ),
        has_flag(
            new_entry(name, options, compressor, offset, deferred).flags,
            FLAG_DATA_DESCRIPTOR,
        ) == deferred,
{
    lemma_entry_flags(deferred, is_multibyte(name));
    lemma_multibyte_iff_not_ascii(name);
}

/// The first entries of an archive take the bytes that their lengths add up to.
pub proof fn lemma_start_is_sum_of_lengths(archive: ArchiveView, index: int)
    requires
        archive.payloads.len() == archive.entries.len(),
        0 <= index <= archive.entries.len(),
    ensures
        archive.start_of(index) == lengths_before(archive, index),
    decreases index,
{
    if index > 0 {
        lemma_start_is_sum_of_lengths(archive, index - 1);
        let entries = archive.entries.take(index);
        let payloads = archive.payloads.take(index);
        assert(entries.drop_last() =~= archive.entries.take(index - 1));
        assert(payloads.drop_last() =~= archive.payloads.take(index - 1));
        lemma_entry_length(entries.last(), payloads.last());
    } else {
        assert(archive.entries.take(0).len() == 0);
    }
}

/// The offset that the record of an entry holds is the sum of the lengths of all
/// entries before it, as far as 32 bits hold that sum; where the sum fits into
/// 32 bits, the offset is that sum.
pub proof fn lemma_offset_is_sum_of_lengths(archive: ArchiveView, index: int)
    requires
        archive.wf(),
        0 <= index < archive.entries.len(),
    ensures
        archive.entries[index].offset == lengths_before(archive, index) as u32,
        lengths_before(archive, index) <= u32::MAX ==> archive.entries[index].offset
            == lengths_before(archive, index),
{
    lemma_start_is_sum_of_lengths(archive, index);
    assert(archive.recorded_at(index));
}

/// The bytes of the first entries stand at the start of the bytes of all.
pub proof fn lemma_entries_prefix(entries: Seq<EntryView>, payloads: Seq<Seq<u8>>, count: int)
    requires
        payloads.len() == entries.len(),
        0 <= count <= entries.len(),
    ensures
        entries_bytes(entries.take(count), payloads.take(count)).len() <= entries_bytes(
            entries,
            payloads,
        ).len(),
        entries_bytes(entries, payloads).take(
            entries_bytes(entries.take(count), payloads.take(count)).len() as int,
        ) == entries_bytes(entries.take(count), payloads.take(count)),
    decreases entries.len(),
{
    if count == entries.len() {
        assert(entries.take(count) =~= entries);
        assert(payloads.take(count) =~= payloads);
        let all = entries_bytes(entries, payloads);
        assert(all.take(all.len() as int) =~= all);
    } else {
        lemma_entries_prefix(entries.drop_last(), payloads.drop_last(), count);
        assert(entries.drop_last().take(count) =~= entries.take(count));
        assert(payloads.drop_last().take(count) =~= payloads.take(count));
        let shorter = entries_bytes(entries.drop_last(), payloads.drop_last());
        let first = entries_bytes(entries.take(count), payloads.take(count));
        assert(entries_bytes(entries, payloads).take(first.len() as int) =~= shorter.take(
            first.len() as int,
        ));
    }
}

/// Every entry stands in the archive where the lengths of the entries before it
/// end, and nothing of it is lost: there its bytes are found whole.
pub proof fn lemma_entry_position(archive: ArchiveView, index: int)
    requires
        archive.payloads.len() == archive.entries.len(),
        0 <= index < archive.entries.len(),
    ensures
        entry_end(archive, index) <= archive.bytes().len(),
        archive.bytes().subrange(archive.start_of(index) as int, entry_end(archive, index))
            == entry_bytes(archive.entries[index], archive.payloads[index]),
{
    let entry = archive.entries[index];
    let payload = archive.payloads[index];
    let upto = entries_bytes(archive.entries.take(index + 1), archive.payloads.take(index + 1));
    lemma_entries_prefix(archive.entries, archive.payloads, index + 1);
    lemma_entry_length(entry, payload);
    assert(archive.entries.take(index + 1).drop_last() =~= archive.entries.take(index));
    assert(archive.payloads.take(index + 1).drop_last() =~= archive.payloads.take(index));
    assert(upto == entries_bytes(archive.entries.take(index), archive.payloads.take(index))
        + entry_bytes(entry, payload));
    let start = archive.start_of(index) as int;
    assert(archive.bytes().subrange(start, start + entry_length(entry, payload))
        =~= archive.bytes().take(upto.len() as int).subrange(
        start,
        start + entry_length(entry, payload),
    ));
    assert(upto.subrange(start, start + entry_length(entry, payload)) =~= entry_bytes(
        entry,
        payload,
    ));
}

/// The payload of every entry stands in the archive behind the entry's local
/// header, as the bytes that the entry's compressor made of it.
pub proof fn lemma_payload_position(archive: ArchiveView, index: int)
    requires
        archive.payloads.len() == archive.entries.len(),
        0 <= index < archive.entries.len(),
    ensures
        ({
            let payload_start = archive.start_of(index) + FILE_HEADER_BASE_SIZE
                + archive.entries[index].name.len();
            &&& payload_start + archive.payloads[index].len() <= archive.bytes().len()
            &&& archive.bytes().subrange(
                payload_start as int,
                payload_start + archive.payloads[index].len(),
            ) == archive.payloads[index]
        }),
{
    let entry = archive.entries[index];
    let payload = archive.payloads[index];
    let header_length = FILE_HEADER_BASE_SIZE as int + entry.name.len();
    lemma_entry_position(archive, index);
    lemma_entry_length(entry, payload);
    lemma_window(
        archive.bytes(),
        archive.start_of(index) as int,
        entry_bytes(entry, payload),
        header_length,
        header_length + payload.len(),
    );
    if has_flag(entry.flags, FLAG_DATA_DESCRIPTOR) {
        let header = blank_local_file_header(entry);
        assert(entry_bytes(entry, payload) == (header + payload) + data_descriptor(entry));
        lemma_window_front(
            header + payload,
            data_descriptor(entry),
            header_length,
            header_length + payload.len(),
        );
        lemma_window_back(header, payload, 0, payload.len() as int);
    } else {
        lemma_window_back(local_file_header(entry), payload, 0, payload.len() as int);
    }
    assert(payload.subrange(0, payload.len() as int) =~= payload);
}

/// Of every entry that the library encoded itself, the record holds the CRC-32
/// of the payload as it was given and, as far as 32 bits hold it, the payload's
/// length; the bytes that stand in the archive for the payload are what the
/// entry's compressor, which is never an unknown one, makes of it: for `Store`
/// the payload itself.
pub proof fn lemma_entry_payload(archive: ArchiveView, index: int)
    requires
        archive.wf(),
        0 <= index < archive.entries.len(),
        archive.sources[index] is Some,
    ensures
        ({
            let entry = archive.entries[index];
            let source = archive.sources[index]->0;
            &&& !(entry.compressor is Unknown)
            &&& entry.crc32 == crc32_checksum(source)
            &&& entry.uncompressed_size == source.len() as u32
            &&& entry.compressed_size == archive.payloads[index].len() as u32
            &&& exists|level: Option<i32>|
                archive.payloads[index] == #[trigger] entry.compressor.spec_encode(source, level)
            &&& entry.compressor is Store ==> archive.payloads[index] == source
        }),
{
    assert(archive.recorded_at(index));
}

/// Where checksum and sizes stand in the headers and in the data descriptor.
pub proof fn lemma_size_fields_position(entry: EntryView)
    ensures
        size_fields(entry).len() == 12,
        local_file_header(entry).subrange(
            FILE_HEADER_CRC_OFFSET as int,
            FILE_HEADER_CRC_OFFSET + 12,
        ) == size_fields(entry),
        blank_local_file_header(entry).subrange(
            FILE_HEADER_CRC_OFFSET as int,
            FILE_HEADER_CRC_OFFSET + 12,
        ) == blank_size_fields(),
        central_directory_file_header(entry).subrange(16, 28) == size_fields(entry),
        data_descriptor(entry).subrange(4, 16) == size_fields(entry),
{
    assert(local_file_header(entry).subrange(
        FILE_HEADER_CRC_OFFSET as int,
        FILE_HEADER_CRC_OFFSET + 12,
    ) =~= size_fields(entry));
    assert(blank_local_file_header(entry).subrange(
        FILE_HEADER_CRC_OFFSET as int,
        FILE_HEADER_CRC_OFFSET + 12,
    ) =~= blank_size_fields());
    assert(central_directory_file_header(entry).subrange(16, 28) =~= size_fields(entry));
    assert(data_descriptor(entry).subrange(4, 16) =~= size_fields(entry));
}

/// The number of bytes of the central directory that precede the file header of
/// entry `index`.
pub open spec fn directory_start(entries: Seq<EntryView>, index: int) -> nat {
    central_directory(entries.take(index)).len()
}

/// The position in the central directory at which the file header of entry
/// `index` ends.
pub open spec fn directory_end(entries: Seq<EntryView>, index: int) -> int {
    directory_start(entries, index) + CENTRAL_DIRECTORY_ENTRY_BASE_SIZE + entries[index].name.len()
}

/// The file headers of the first entries stand at the start of the central
/// directory.
pub proof fn lemma_directory_prefix(entries: Seq<EntryView>, count: int)
    requires
        0 <= count <= entries.len(),
    ensures
        central_directory(entries.take(count)).len() <= central_directory(entries).len(),
        central_directory(entries).take(central_directory(entries.take(count)).len() as int)
            == central_directory(entries.take(count)),
    decreases entries.len(),
{
    if count == entries.len() {
        assert(entries.take(count) =~= entries);
        let all = central_directory(entries);
        assert(all.take(all.len() as int) =~= all);
    } else {
        lemma_directory_prefix(entries.drop_last(), count);
        assert(entries.drop_last().take(count) =~= entries.take(count));
        let shorter = central_directory(entries.drop_last());
        let first = central_directory(entries.take(count));
        assert(central_directory(entries).take(first.len() as int) =~= shorter.take(
            first.len() as int,
        ));
    }
}

/// The central directory holds the file header of every entry, whole and in the
/// order of the entries.
pub proof fn lemma_directory_position(entries: Seq<EntryView>, index: int)
    requires
        0 <= index < entries.len(),
    ensures
        directory_end(entries, index) <= central_directory(entries).len(),
        central_directory(entries).subrange(
            directory_start(entries, index) as int,
            directory_end(entries, index),
        ) == central_directory_file_header(entries[index]),
{
    let entry = entries[index];
    let upto = central_directory(entries.take(index + 1));
    lemma_directory_prefix(entries, index + 1);
    lemma_entry_length(entry, Seq::empty());
    assert(entries.take(index + 1).drop_last() =~= entries.take(index));
    assert(upto == central_directory(entries.take(index)) + central_directory_file_header(entry));
    let start = directory_start(entries, index) as int;
    let end = directory_end(entries, index);
    assert(central_directory(entries).subrange(start, end) =~= central_directory(entries).take(
        upto.len() as int,
    ).subrange(start, end));
    assert(upto.subrange(start, end) =~= central_directory_file_header(entry));
}

/// What closes an archive is the central directory followed by the end record,
/// and the end record holds, at fixed places, the number of entries twice, the
/// size of the central directory, the position at which it starts, and the
/// length of the comment.
pub proof fn lemma_end_record(entries: Seq<EntryView>, offset: nat, comment: Seq<u8>)
    ensures
        ({
            let directory = central_directory(entries);
            let trailer = archive_trailer(entries, offset, comment);
            let record = end_of_central_directory(
                entries.len() as u16,
                directory.len() as u32,
                offset as u32,
                comment,
            );
            &&& trailer == directory + record
            &&& record.len() == END_OF_CENTRAL_DIRECTORY_SIZE + comment.len()
            &&& record.subrange(0, 4) == le_bytes_u32(CENTRAL_DIRECTORY_END_SIGNATURE)
            &&& record.subrange(4, 8) == le_bytes_u16(0) + le_bytes_u16(0)
            &&& record.subrange(8, 10) == le_bytes_u16(entries.len() as u16)
            &&& record.subrange(10, 12) == le_bytes_u16(entries.len() as u16)
            &&& record.subrange(12, 16) == le_bytes_u32(directory.len() as u32)
            &&& record.subrange(16, 20) == le_bytes_u32(offset as u32)
            &&& record.subrange(20, 22) == le_bytes_u16(comment.len() as u16)
            &&& record.subrange(22, record.len() as int) == comment
        }),
{
    lemma_record_fields(
        le_bytes_u32(CENTRAL_DIRECTORY_END_SIGNATURE),
        le_bytes_u16(0),
        le_bytes_u16(0),
        le_bytes_u16(entries.len() as u16),
        le_bytes_u16(entries.len() as u16),
        le_bytes_u32(central_directory(entries).len() as u32),
        le_bytes_u32(offset as u32),
        le_bytes_u16(comment.len() as u16),
        comment,
    );
}

/// An archive without entries is closed by the end record alone, which counts
/// no entry and gives the central directory no size; without a comment these are
/// the 22 bytes of an empty ZIP file.
pub proof fn lemma_empty_archive(offset: nat, comment: Seq<u8>)
    ensures
        archive_trailer(Seq::empty(), offset, comment) == end_of_central_directory(
            0,
            0,
            offset as u32,
            comment,
        ),
        archive_trailer(Seq::empty(), 0, Seq::empty()) == seq![
            0x50u8, 0x4b, 0x05, 0x06, 0, 0, 0, 0, 0, 0, 0, 0, 0, 0, 0, 0, 0, 0, 0, 0, 0, 0,
        ],
{
    assert(central_directory(Seq::<EntryView>::empty()) =~= Seq::<u8>::empty());
    assert(archive_trailer(Seq::empty(), offset, comment) =~= end_of_central_directory(
        0,
        0,
        offset as u32,
        comment,
    ));
    assert(archive_trailer(Seq::empty(), 0, Seq::empty()) =~= seq![
        0x50u8, 0x4b, 0x05, 0x06, 0, 0, 0, 0, 0, 0, 0, 0, 0, 0, 0, 0, 0, 0, 0, 0, 0, 0,
    ]);
}

/// What a writer has written holds the entries at its start, finalized or not.
proof fn lemma_written_window(
    written: Seq<u8>,
    archive: ArchiveView,
    finalized: bool,
    from: int,
    to: int,
)
    requires
        written == if finalized {
            archive.bytes() + archive_trailer(
                archive.entries,
                archive.bytes().len(),
                archive.comment,
            )
        } else {
            archive.bytes()
        },
        0 <= from <= to <= archive.bytes().len(),
    ensures
        to <= written.len(),
        written.subrange(from, to) == archive.bytes().subrange(from, to),
{
    if finalized {
        lemma_window_front(
            archive.bytes(),
            archive_trailer(archive.entries, archive.bytes().len(), archive.comment),
            from,
            to,
        );
    }
}

/// In an archive that is written forward with data descriptors, every entry has
/// the data descriptor flag, its local header holds zeros where checksum and
/// sizes would stand, and these stand in the data descriptor behind the payload.
pub proof fn lemma_streamed_entry(archive: ZipArchive, index: int)
    requires
        archive.wf(),
        0 <= index < archive@.entries.len(),
    ensures
        ({
            let entry = archive@.entries[index];
            let start = archive@.start_of(index) as int;
            let end = entry_end(archive@, index);
            &&& has_flag(entry.flags, FLAG_DATA_DESCRIPTOR)
            &&& end <= archive.written().len()
            &&& end == start + FILE_HEADER_BASE_SIZE + entry.name.len()
                + archive@.payloads[index].len() + DESCRIPTOR_SIZE
            &&& archive.written().subrange(
                start + FILE_HEADER_CRC_OFFSET,
                start + FILE_HEADER_CRC_OFFSET + 12,
            ) == blank_size_fields()
            &&& archive.written().subrange(end - 12, end) == size_fields(entry)
            &&& archive.written().subrange(end - DESCRIPTOR_SIZE, end) == data_descriptor(entry)
        }),
{
    let entry = archive@.entries[index];
    let payload = archive@.payloads[index];
    let start = archive@.start_of(index) as int;
    let end = entry_end(archive@, index);
    let bytes = entry_bytes(entry, payload);
    let header = blank_local_file_header(entry);
    let descriptor = data_descriptor(entry);
    lemma_entry_position(archive@, index);
    lemma_entry_length(entry, payload);
    lemma_size_fields_position(entry);
    lemma_written_window(archive.written(), archive@, archive.is_finalized(), start, end);
    assert(bytes == (header + payload) + descriptor);
    lemma_window(
        archive.written(),
        start,
        bytes,
        FILE_HEADER_CRC_OFFSET as int,
        FILE_HEADER_CRC_OFFSET + 12,
    );
    lemma_window_front(
        header,
        payload + descriptor,
        FILE_HEADER_CRC_OFFSET as int,
        FILE_HEADER_CRC_OFFSET + 12,
    );
    assert(bytes =~= header + (payload + descriptor));
    lemma_window(archive.written(), start, bytes, bytes.len() - 16, bytes.len() as int);
    lemma_window_back(header + payload, descriptor, 0, 16);
    assert(descriptor.subrange(0, 16) =~= descriptor);
    lemma_window(archive.written(), start, bytes, bytes.len() - 12, bytes.len() as int);
    lemma_window_back(header + payload, descriptor, 4, 16);
}

/// In an archive on a seekable sink no entry has the data descriptor flag, and
/// every local header holds the checksum and the sizes of its record.
pub proof fn lemma_patched_entry(archive: ZipArchiveNoStream, index: int)
    requires
        archive.wf(),
        0 <= index < archive@.entries.len(),
    ensures
        ({
            let entry = archive@.entries[index];
            let start = archive@.start_of(index) as int;
            let end = entry_end(archive@, index);
            &&& !has_flag(entry.flags, FLAG_DATA_DESCRIPTOR)
            &&& end <= archive.written().len()
            &&& end == start + FILE_HEADER_BASE_SIZE + entry.name.len()
                + archive@.payloads[index].len()
            &&& archive.written().subrange(
                start + FILE_HEADER_CRC_OFFSET,
                start + FILE_HEADER_CRC_OFFSET + 12,
            ) == size_fields(entry)
        }),
{
    let entry = archive@.entries[index];
    let payload = archive@.payloads[index];
    let start = archive@.start_of(index) as int;
    let end = entry_end(archive@, index);
    let bytes = entry_bytes(entry, payload);
    lemma_entry_position(archive@, index);
    lemma_entry_length(entry, payload);
    lemma_size_fields_position(entry);
    lemma_written_window(archive.written(), archive@, archive.is_finalized(), start, end);
    assert(bytes == local_file_header(entry) + payload);
    lemma_window(
        archive.written(),
        start,
        bytes,
        FILE_HEADER_CRC_OFFSET as int,
        FILE_HEADER_CRC_OFFSET + 12,
    );
    lemma_window_front(
        local_file_header(entry),
        payload,
        FILE_HEADER_CRC_OFFSET as int,
        FILE_HEADER_CRC_OFFSET + 12,
    );
}

/// Once an archive on a seekable sink is finalized, checksum and sizes in the
/// local header of every entry are those in its central directory file header.
pub proof fn lemma_patched_entry_matches_directory(archive: ZipArchiveNoStream, index: int)
    requires
        archive.wf(),
        archive.is_finalized(),
        0 <= index < archive@.entries.len(),
    ensures
        ({
            let local = archive@.start_of(index) as int;
            let central = (archive@.bytes().len() + directory_start(archive@.entries, index))
                as int;
            &&& central + CENTRAL_DIRECTORY_ENTRY_BASE_SIZE <= archive.written().len()
            &&& archive.written().subrange(local + 14, local + 26) == archive.written().subrange(
                central + 16,
                central + 28,
            )
        }),
{
    let entry = archive@.entries[index];
    let entries = archive@.entries;
    let directory = central_directory(entries);
    let first = archive@.bytes().len() as int;
    let central = first + directory_start(entries, index);
    lemma_patched_entry(archive, index);
    lemma_directory_position(entries, index);
    lemma_size_fields_position(entry);
    lemma_end_record(entries, archive@.bytes().len(), archive@.comment);
    let header = central_directory_file_header(entry);
    assert(archive.written().subrange(central, central + header.len()) =~= directory.subrange(
        directory_start(entries, index) as int,
        directory_end(entries, index),
    ));
    assert(archive.written().subrange(central + 16, central + 28) =~= header.subrange(16, 28));
}

/// The bytes of a finalized archive: its entries, its central directory and its
/// end record.
pub open spec fn finalized_bytes(archive: ArchiveView) -> Seq<u8> {
    archive.bytes() + archive_trailer(archive.entries, archive.bytes().len(), archive.comment)
}

/// In a finalized archive the central directory stands behind the last entry,
/// and the end record, which closes the archive, gives as the directory's offset
/// the number of bytes that the entries take, as far as 32 bits hold it.
pub proof fn lemma_central_directory_offset(archive: ArchiveView)
    ensures
        ({
            let written = finalized_bytes(archive);
            let entries_end = archive.bytes().len() as int;
            let directory = central_directory(archive.entries);
            let record = written.len() - END_OF_CENTRAL_DIRECTORY_SIZE - archive.comment.len();
            &&& record == entries_end + directory.len()
            &&& written.take(entries_end) == archive.bytes()
            &&& written.subrange(entries_end, record) == directory
            &&& written.subrange(record + 16, record + 20) == le_bytes_u32(entries_end as u32)
            &&& written.subrange(record + 12, record + 16) == le_bytes_u32(directory.len() as u32)
            &&& written.subrange(record + 10, record + 12) == le_bytes_u16(
                archive.entries.len() as u16,
            )
        }),
{
    let written = finalized_bytes(archive);
    let entries_end = archive.bytes().len() as int;
    let directory = central_directory(archive.entries);
    let start = written.len() - END_OF_CENTRAL_DIRECTORY_SIZE - archive.comment.len();
    lemma_end_record(archive.entries, archive.bytes().len(), archive.comment);
    let record = end_of_central_directory(
        archive.entries.len() as u16,
        directory.len() as u32,
        entries_end as u32,
        archive.comment,
    );
    assert(written == archive.bytes() + (directory + record));
    assert(written.take(entries_end) =~= archive.bytes());
    assert(written.subrange(entries_end, start) =~= directory);
    assert(written =~= (archive.bytes() + directory) + record);
    lemma_window_back(archive.bytes() + directory, record, 16, 20);
    lemma_window_back(archive.bytes() + directory, record, 12, 16);
    lemma_window_back(archive.bytes() + directory, record, 10, 12);
}

} // verus!

//! What the archive writers share: the records of the entries with the comment,
//! and the builders of headers and records.

use vstd::prelude::*;
use vstd::string::StringSliceAdditionalSpecFns;
use crate::archive::CentralDirectoryEnd;
use crate::archive::FileOptions;
use crate::compression::Compressor;
use crate::constants::CENTRAL_DIRECTORY_END_SIGNATURE;
use crate::constants::CENTRAL_DIRECTORY_ENTRY_SIGNATURE;
use crate::constants::DATA_DESCRIPTOR_SIGNATURE;
use crate::constants::DESCRIPTOR_SIZE;
use crate::constants::END_OF_CENTRAL_DIRECTORY_SIZE;
use crate::constants::FILE_HEADER_BASE_SIZE;
use crate::constants::FILE_HEADER_SIZES_LENGTH;
use crate::constants::FLAG_DATA_DESCRIPTOR;
use crate::constants::FLAG_UTF8;
use crate::constants::LOCAL_FILE_HEADER_SIGNATURE;
use crate::constants::MAX_COMMENT_LENGTH;
use crate::constants::UNIX_REGULAR_FILE;
use crate::descriptor::ArchiveDescriptor;
use crate::layout::central_directory_file_header;
use crate::layout::data_descriptor;
use crate::layout::end_of_central_directory;
use crate::layout::lemma_multibyte_iff_not_ascii;
use crate::layout::local_file_header;
use crate::layout::new_entry;
use crate::layout::size_fields;
use crate::model::ArchiveView;
use crate::types::ArchiveFileEntry;

verus! {

/// The entries and the comment of an archive in the making.
pub struct SubZipArchiveData {
    pub(crate) files_info: Vec<ArchiveFileEntry>,
    pub(crate) archive_comment: Vec<u8>,
    pub(crate) payloads: Ghost<Seq<Seq<u8>>>,
    pub(crate) sources: Ghost<Seq<Option<Seq<u8>>>>,
}

impl View for SubZipArchiveData {
    type V = ArchiveView;

    closed spec fn view(&self) -> ArchiveView {
        ArchiveView {
            entries: Seq::new(self.files_info@.len(), |index: int| self.files_info@[index]@),
            payloads: self.payloads@,
            sources: self.sources@,
            comment: self.archive_comment@,
        }
    }
}

impl SubZipArchiveData {
    /// No entry and no comment.
    pub fn new() -> (data: SubZipArchiveData)
        ensures
            data@.entries.len() == 0,
            data@.payloads.len() == 0,
            data@.sources.len() == 0,
            data@.comment.len() == 0,
            data@.wf(),
    {
        SubZipArchiveData {
            files_info: Vec::new(),
            archive_comment: Vec::new(),
            payloads: Ghost(Seq::empty()),
            sources: Ghost(Seq::empty()),
        }
    }

    /// The number of entries.
    pub fn entry_count(&self) -> (count: usize)
        ensures
            count == self@.entries.len(),
    {
        self.files_info.len()
    }

    /// The record of entry `index`.
    pub fn entry(&self, index: usize) -> (entry: &ArchiveFileEntry)
        requires
            index < self@.entries.len(),
        ensures
            entry@ == self@.entries[index as int],
    {
        &self.files_info[index]
    }

    /// The comment as it will stand in the end record.
    pub fn comment(&self) -> (comment: &[u8])
        ensures
            comment@ == self@.comment,
    {
        self.archive_comment.as_slice()
    }

    /// Sets the comment to the first 65535 bytes of `comment`.
    pub fn set_comment(&mut self, comment: &[u8])
        ensures
            final(self)@ == (ArchiveView {
                comment: if comment@.len() <= MAX_COMMENT_LENGTH {
                    comment@
                } else {
                    comment@.take(MAX_COMMENT_LENGTH as int)
                },
                ..old(self)@
            }),
            old(self)@.wf() ==> final(self)@.wf(),
    {
        let length = if comment.len() <= MAX_COMMENT_LENGTH {
            comment.len()
        } else {
            MAX_COMMENT_LENGTH
        };
        self.archive_comment = vstd::slice::slice_to_vec(
            vstd::slice::slice_subrange(comment, 0, length),
        );
        assert(self@.entries =~= old(self)@.entries);
        assert(comment@.take(comment@.len() as int) =~= comment@);
        proof {
            if old(self)@.wf() {
                assert forall|index: int|
                    0 <= index < self@.entries.len() implies #[trigger] self@.recorded_at(
                    index,
                ) by {
                    assert(old(self)@.recorded_at(index));
                }
            }
        }
    }

    /// Adds the record of an entry whose payload stands in the archive as the
    /// bytes `payload`.
    pub(crate) fn push(
        &mut self,
        entry: ArchiveFileEntry,
        Ghost(payload): Ghost<Seq<u8>>,
        Ghost(source): Ghost<Option<Seq<u8>>>,
    )
        ensures
            final(self)@ == old(self)@.push(entry@, payload, source),
    {
        self.files_info.push(entry);
        proof {
            self.payloads@ = self.payloads@.push(payload);
            self.sources@ = self.sources@.push(source);
        }
        assert(self@.entries =~= old(self)@.entries.push(entry@));
    }
}

/// What the two kinds of archive writer have in common.
pub trait ZipArchiveCommon {
    /// The number of bytes that the archive takes so far.
    spec fn archive_size(&self) -> nat;

    /// The entries and the comment of the archive.
    spec fn data(&self) -> SubZipArchiveData;

    /// The writer is in a state that its operations can work on.
    spec fn valid(&self) -> bool;

    fn get_archive_size(&self) -> (size: usize)
        requires
            self.valid(),
        ensures
            size == self.archive_size(),
    ;

    fn get_data(&self) -> (data: &SubZipArchiveData)
        ensures
            *data == self.data(),
    ;
}

/// Makes the record of an entry that starts `offset` bytes into the archive. The
/// payload is still to come: checksum and sizes are zero.
///
/// The UTF-8 flag is set exactly when the name holds a character that takes more
/// than one byte. The name's length is stored in 16 bits.
pub fn new_file_entry(
    file_name: &str,
    options: &FileOptions,
    compressor: Compressor,
    offset: u32,
    use_data_descriptor: bool,
) -> (entry: ArchiveFileEntry)
    ensures
        entry@ == new_entry(file_name@, options@, compressor, offset, use_data_descriptor),
{
    let file_name_as_bytes = file_name.as_bytes();
    let file_name_len = #[verifier::truncate] (file_name_as_bytes.len() as u16);

    let (date, time) = options.get_last_modified_time().ms_dos();
    let mut general_purpose_flags: u16 = if use_data_descriptor {
        FLAG_DATA_DESCRIPTOR
    } else {
        0
    };
    if !file_name.is_ascii() {
        general_purpose_flags |= FLAG_UTF8;
    }
    proof {
        lemma_multibyte_iff_not_ascii(file_name@);
        assert(0x0008u16 | 0x0800 == 0x0808 && 0u16 | 0x0800 == 0x0800) by (bit_vector);
    }
    ArchiveFileEntry {
        file_name_as_bytes: vstd::slice::slice_to_vec(file_name_as_bytes),
        file_name_len,
        compressed_size: 0,
        uncompressed_size: 0,
        crc32: 0,
        offset,
        last_mod_file_time: time,
        last_mod_file_date: date,
        compressor,
        general_purpose_flags,
        extra_field_length: 0,
        version_needed: compressor.version_needed(),
        compression_method: compressor.compression_method(),
        permissions: options.effective_permissions(),
    }
}

/// Builds the local file header that holds the checksum and sizes of `entry`.
pub fn build_local_file_header(entry: &ArchiveFileEntry) -> (file_header: ArchiveDescriptor)
    ensures
        file_header@ == local_file_header(entry@),
        file_header@.len() == FILE_HEADER_BASE_SIZE + entry@.name.len(),
{
    let name_length = entry.file_name_as_bytes.len();
    let capacity = if name_length <= usize::MAX - FILE_HEADER_BASE_SIZE {
        FILE_HEADER_BASE_SIZE + name_length
    } else {
        FILE_HEADER_BASE_SIZE
    };
    let mut file_header = ArchiveDescriptor::new(capacity);
    file_header.write_u32(LOCAL_FILE_HEADER_SIGNATURE);
    file_header.write_u16(entry.version_needed);
    file_header.write_u16(entry.general_purpose_flags);
    file_header.write_u16(entry.compression_method);
    file_header.write_u16(entry.last_mod_file_time);
    file_header.write_u16(entry.last_mod_file_date);
    file_header.write_u32(entry.crc32);
    file_header.write_u32(entry.compressed_size);
    file_header.write_u32(entry.uncompressed_size);
    file_header.write_u16(entry.file_name_len);
    file_header.write_u16(entry.extra_field_length);
    file_header.write_bytes(entry.file_name_as_bytes.as_slice());
    assert(file_header@ =~= local_file_header(entry@));
    file_header
}

/// Builds the local file header of an entry that starts `offset` bytes into the
/// archive, together with its record. The payload is still to come: checksum and
/// sizes are zero in both.
pub fn build_file_header(
    file_name: &str,
    options: &FileOptions,
    compressor: Compressor,
    offset: u32,
    use_data_descriptor: bool,
) -> (built: (ArchiveDescriptor, ArchiveFileEntry))
    ensures
        built.1@ == new_entry(file_name@, options@, compressor, offset, use_data_descriptor),
        built.0@ == local_file_header(built.1@),
        built.0@.len() == FILE_HEADER_BASE_SIZE + file_name.spec_bytes().len(),
{
    let archive_file_entry = new_file_entry(
        file_name,
        options,
        compressor,
        offset,
        use_data_descriptor,
    );
    let file_header = build_local_file_header(&archive_file_entry);
    (file_header, archive_file_entry)
}

/// Builds the checksum and size fields of `entry`, as they stand in a local file
/// header and in a data descriptor.
pub fn build_size_fields(entry: &ArchiveFileEntry) -> (fields: ArchiveDescriptor)
    ensures
        fields@ == size_fields(entry@),
        fields@.len() == FILE_HEADER_SIZES_LENGTH,
{
    let mut fields = ArchiveDescriptor::new(FILE_HEADER_SIZES_LENGTH);
    fields.write_u32(entry.crc32);
    fields.write_u32(entry.compressed_size);
    fields.write_u32(entry.uncompressed_size);
    assert(fields@ =~= size_fields(entry@));
    fields
}

/// Builds the data descriptor that follows the payload of `entry`.
pub fn build_data_descriptor(entry: &ArchiveFileEntry) -> (descriptor: ArchiveDescriptor)
    ensures
        descriptor@ == data_descriptor(entry@),
        descriptor@.len() == DESCRIPTOR_SIZE,
{
    let mut descriptor = ArchiveDescriptor::new(DESCRIPTOR_SIZE);
    descriptor.write_u32(DATA_DESCRIPTOR_SIGNATURE);
    descriptor.write_u32(entry.crc32);
    descriptor.write_u32(entry.compressed_size);
    descriptor.write_u32(entry.uncompressed_size);
    assert(descriptor@ =~= data_descriptor(entry@));
    descriptor
}

/// Appends the central directory file header of `file_info` to the buffer.
pub fn build_central_directory_file_header(
    central_directory_header: &mut ArchiveDescriptor,
    file_info: &ArchiveFileEntry,
)
    ensures
        final(central_directory_header)@ == old(central_directory_header)@
            + central_directory_file_header(file_info@),
{
    central_directory_header.write_u32(CENTRAL_DIRECTORY_ENTRY_SIGNATURE);
    central_directory_header.write_u16(file_info.version_made_by());
    central_directory_header.write_u16(file_info.version_needed());
    central_directory_header.write_u16(file_info.general_purpose_flags);
    central_directory_header.write_u16(file_info.compression_method);
    central_directory_header.write_u16(file_info.last_mod_file_time);
    central_directory_header.write_u16(file_info.last_mod_file_date);
    central_directory_header.write_u32(file_info.crc32);
    central_directory_header.write_u32(file_info.compressed_size);
    central_directory_header.write_u32(file_info.uncompressed_size);
    central_directory_header.write_u16(file_info.file_name_len);
    central_directory_header.write_u16(0u16);
    central_directory_header.write_u16(0u16);
    central_directory_header.write_u16(0u16);
    central_directory_header.write_u16(0u16);
    central_directory_header.write_u32((UNIX_REGULAR_FILE + file_info.permissions % 512) * 65536);
    central_directory_header.write_u32(file_info.offset);
    central_directory_header.write_bytes(file_info.file_name_as_bytes.as_slice());
    assert(central_directory_header@ =~= old(central_directory_header)@
        + central_directory_file_header(file_info@));
}

/// Builds the end of central directory record of `arch`, whose central directory
/// takes `central_directory_size` bytes from `central_directory_offset` on. The
/// number of entries and the length of the comment are stored in 16 bits.
pub fn build_central_directory_end<A: ZipArchiveCommon>(
    arch: &A,
    central_directory_offset: u32,
    central_directory_size: u32,
) -> (record: ArchiveDescriptor)
    ensures
        record@ == end_of_central_directory(
            arch.data()@.entries.len() as u16,
            central_directory_size,
            central_directory_offset,
            arch.data()@.comment,
        ),
{
    let data = arch.get_data();
    let dir_end = CentralDirectoryEnd {
        disk_number: 0,
        disk_with_central_directory: 0,
        total_number_of_entries_on_this_disk: #[verifier::truncate] (data.entry_count() as u16),
        total_number_of_entries: #[verifier::truncate] (data.entry_count() as u16),
        central_directory_size,
        central_directory_offset,
        zip_file_comment_length: #[verifier::truncate] (data.comment().len() as u16),
    };
    let capacity = if data.comment().len() <= usize::MAX - END_OF_CENTRAL_DIRECTORY_SIZE {
        END_OF_CENTRAL_DIRECTORY_SIZE + data.comment().len()
    } else {
        END_OF_CENTRAL_DIRECTORY_SIZE
    };
    let mut record = ArchiveDescriptor::new(capacity);
    record.write_u32(CENTRAL_DIRECTORY_END_SIGNATURE);
    record.write_u16(dir_end.disk_number);
    record.write_u16(dir_end.disk_with_central_directory);
    record.write_u16(dir_end.total_number_of_entries_on_this_disk);
    record.write_u16(dir_end.total_number_of_entries);
    record.write_u32(dir_end.central_directory_size);
    record.write_u32(dir_end.central_directory_offset);
    record.write_u16(dir_end.zip_file_comment_length);
    record.write_bytes(data.comment());
    assert(record@ =~= end_of_central_directory(
        arch.data()@.entries.len() as u16,
        central_directory_size,
        central_directory_offset,
        arch.data()@.comment,
    ));
    record
}

} // verus!

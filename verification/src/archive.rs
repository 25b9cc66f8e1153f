//! The options of an entry, and the forward-only archive that takes entries of
//! both kinds.

use vstd::prelude::*;
use crate::compression::Compressor;
use crate::constants::DEFAULT_PERMISSIONS;
use crate::error::ArchiveError;
use crate::forward_writer::ForwardWriter;
use crate::layout::archive_trailer;
use crate::layout::blank_local_file_header;
use crate::layout::encoded_entry;
use crate::layout::entry_bytes;
use crate::layout::truncated_comment;
use crate::layout::written_entry;
use crate::model::ArchiveView;
use crate::types::FileDateTime;

verus! {

/// The fields of the end of central directory record.
#[derive(Debug)]
pub struct CentralDirectoryEnd {
    pub disk_number: u16,
    pub disk_with_central_directory: u16,
    pub total_number_of_entries_on_this_disk: u16,
    pub total_number_of_entries: u16,
    pub central_directory_size: u32,
    pub central_directory_offset: u32,
    pub zip_file_comment_length: u16,
}

/// How an entry is to be written.
#[derive(Clone, Copy)]
pub struct FileOptions {
    pub(crate) compressor: Compressor,
    pub(crate) compression_level: Option<i32>,
    pub(crate) last_modified_time: FileDateTime,
    pub(crate) permissions: Option<u32>,
}

/// The options of an entry as plain values.
pub struct FileOptionsView {
    pub compressor: Compressor,
    pub compression_level: Option<i32>,
    pub last_modified_time: FileDateTime,
    /// The permission bits, if any were set; they are at most `0o777`.
    pub permissions: Option<u32>,
}

impl FileOptionsView {
    /// The permission bits that an entry written with these options gets.
    pub open spec fn effective_permissions(self) -> u32 {
        match self.permissions {
            Some(mode) => mode % 512,
            None => DEFAULT_PERMISSIONS,
        }
    }
}

impl View for FileOptions {
    type V = FileOptionsView;

    closed spec fn view(&self) -> FileOptionsView {
        FileOptionsView {
            compressor: self.compressor,
            compression_level: self.compression_level,
            last_modified_time: self.last_modified_time,
            permissions: self.permissions,
        }
    }
}

impl FileOptions {
    /// Sets the compression method of the entry.
    pub fn compression_method(self, method: Compressor) -> (options: FileOptions)
        ensures
            options@ == (FileOptionsView { compressor: method, ..self@ }),
    {
        let mut options = self;
        options.compressor = method;
        options
    }

    /// Sets the compression level of the entry; `None` leaves the choice to the
    /// codec. A level outside of what the codec accepts is brought to its nearest
    /// bound, and `Store` ignores it.
    pub fn compression_level(self, level: Option<i32>) -> (options: FileOptions)
        ensures
            options@ == (FileOptionsView { compression_level: level, ..self@ }),
    {
        let mut options = self;
        options.compression_level = level;
        options
    }

    /// Sets the time at which the file was last modified.
    pub fn last_modified_time(self, mod_time: FileDateTime) -> (options: FileOptions)
        ensures
            options@ == (FileOptionsView { last_modified_time: mod_time, ..self@ }),
    {
        let mut options = self;
        options.last_modified_time = mod_time;
        options
    }

    /// Sets the Unix permissions of the entry. Only the nine permission bits of
    /// `mode` are kept.
    pub fn unix_permissions(self, mode: u32) -> (options: FileOptions)
        ensures
            options@ == (FileOptionsView { permissions: Some((mode % 512) as u32), ..self@ }),
    {
        let mut options = self;
        options.permissions = Some(mode % 512);
        options
    }

    /// The compression method that was set.
    pub fn get_compression_method(&self) -> (method: Compressor)
        ensures
            method == self@.compressor,
    {
        self.compressor
    }

    /// The compression level that was set.
    pub fn get_compression_level(&self) -> (level: Option<i32>)
        ensures
            level == self@.compression_level,
    {
        self.compression_level
    }

    /// The modification time that was set.
    pub fn get_last_modified_time(&self) -> (mod_time: FileDateTime)
        ensures
            mod_time == self@.last_modified_time,
    {
        self.last_modified_time
    }

    /// The permission bits that an entry written with these options gets:
    /// `rw-r--r--` unless others were set.
    pub fn effective_permissions(&self) -> (mode: u32)
        ensures
            mode == self@.effective_permissions(),
            mode <= 0o777,
    {
        match self.permissions {
            Some(mode) => mode % 512,
            None => DEFAULT_PERMISSIONS,
        }
    }
}

impl Default for FileOptions {
    /// Deflate at the codec's own level, no modification time, default permissions.
    fn default() -> (options: FileOptions)
        ensures
            options@ == (FileOptionsView {
                compressor: Compressor::Deflate(),
                compression_level: None,
                last_modified_time: FileDateTime::Zero,
                permissions: None,
            }),
    {
        FileOptions {
            compressor: Compressor::Deflate(),
            compression_level: None,
            last_modified_time: FileDateTime::Zero,
            permissions: None,
        }
    }
}

/// The options that `append_file_no_extend` writes an entry with: the given
/// method and time, the codec's own level, the default permissions.
pub open spec fn headed_options(datetime: FileDateTime, compressor: Compressor) -> FileOptionsView {
    FileOptionsView {
        compressor,
        compression_level: None,
        last_modified_time: datetime,
        permissions: None,
    }
}

/// A ZIP archive that is written strictly forward and takes entries of both
/// kinds: streamed ones, whose checksum and sizes follow the payload in a data
/// descriptor, and headed ones, whose local header holds them.
pub struct Archive {
    writer: ForwardWriter,
}

impl View for Archive {
    type V = ArchiveView;

    closed spec fn view(&self) -> ArchiveView {
        self.writer@
    }
}

impl Archive {
    /// The bytes written to the sink so far.
    pub closed spec fn written(&self) -> Seq<u8> {
        self.writer.written()
    }

    /// The bytes that the sink held before the archive was begun.
    pub closed spec fn preamble(&self) -> Seq<u8> {
        self.writer.preamble()
    }

    /// The central directory and the end record have been written.
    pub closed spec fn is_finalized(&self) -> bool {
        self.writer.is_finalized()
    }

    /// The sink's count is the number of bytes written to it.
    pub closed spec fn sink_valid(&self) -> bool {
        self.writer.sink_valid()
    }

    /// The sink holds the entries that the records describe and behind them, once
    /// the archive is finalized, the central directory and the end record.
    pub open spec fn wf(&self) -> bool {
        &&& self.sink_valid()
        &&& self@.wf()
        &&& self.written() == if self.is_finalized() {
            self@.bytes() + archive_trailer(self@.entries, self@.bytes().len(), self@.comment)
        } else {
            self@.bytes()
        }
    }

    /// Begins an archive behind what `sink_` holds.
    pub fn new(sink_: Vec<u8>) -> (archive: Archive)
        ensures
            archive.wf(),
            !archive.is_finalized(),
            archive@.entries.len() == 0,
            archive@.comment.len() == 0,
            archive.written().len() == 0,
            archive.preamble() == sink_@,
    {
        Archive { writer: ForwardWriter::new(sink_) }
    }

    /// What the sink holds: what it held at first, then the archive.
    pub fn get_ref(&self) -> (bytes: &[u8])
        requires
            self.wf(),
        ensures
            bytes@ == self.preamble() + self.written(),
    {
        self.writer.get_ref()
    }

    /// Gives up the sink: what it held at first, then the archive.
    pub fn retrieve_writer(self) -> (sink: Vec<u8>)
        requires
            self.wf(),
        ensures
            sink@ == self.preamble() + self.written(),
    {
        self.writer.retrieve_writer()
    }

    /// The number of bytes written to the sink so far.
    pub fn get_archive_size(&self) -> (size: usize)
        requires
            self.wf(),
        ensures
            size == self.written().len(),
    {
        self.writer.archive_length()
    }

    /// Sets the comment of the archive to the first 65535 bytes of `comment`.
    pub fn get_archive_comment(&mut self, comment: String)
        requires
            old(self).wf(),
            !old(self).is_finalized(),
        ensures
            final(self).wf(),
            !final(self).is_finalized(),
            final(self).written() == old(self).written(),
            final(self).preamble() == old(self).preamble(),
            final(self)@ == (ArchiveView { comment: truncated_comment(comment@), ..old(self)@ }),
    {
        self.writer.set_comment(comment.as_str());
    }

    /// Appends the file `file_name` with the payload `source` as a streamed
    /// entry.
    ///
    /// The local header leaves checksum and sizes at zero; they follow the encoded
    /// payload in a data descriptor. An unknown compression method is refused
    /// before anything is written. When a codec fails, the header has been written
    /// and the archive cannot be used any further.
    pub fn append_file(
        &mut self,
        file_name: &str,
        source: &[u8],
        options: &FileOptions,
    ) -> (result: Result<(), ArchiveError>)
        requires
            old(self).wf(),
            !old(self).is_finalized(),
        ensures
            !final(self).is_finalized(),
            final(self).preamble() == old(self).preamble(),
            result is Ok ==> {
                let entry = written_entry(
                    file_name@,
                    options@,
                    old(self).written().len(),
                    source@,
                    true,
                );
                let payload = options@.compressor.spec_encode(source@, options@.compression_level);
                &&& final(self).wf()
                &&& final(self)@ == old(self)@.push(entry, payload, Some(source@))
                &&& final(self).written() == old(self).written() + entry_bytes(entry, payload)
            },
            result matches Err(error) ==> {
                &&& final(self)@ == old(self)@
                &&& !(options@.compressor is Store)
                &&& match options@.compressor {
                    Compressor::Unknown(code) => {
                        &&& error == ArchiveError::UnsuportedCompressionMethod(code)
                        &&& final(self).written() == old(self).written()
                        &&& final(self).wf()
                    },
                    _ => {
                        &&& error is IoError
                        &&& final(self).written() == old(self).written() + blank_local_file_header(
                            written_entry(
                                file_name@,
                                options@,
                                old(self).written().len(),
                                source@,
                                true,
                            ),
                        )
                    },
                }
            },
            options@.compressor is Store ==> result is Ok,
            options@.compressor is Unknown ==> result is Err,
    {
        self.writer.append_streamed(file_name, source, options)
    }

    /// Appends the file `file_name` with the payload `source` as a headed entry:
    /// its local header holds checksum and sizes, and no data descriptor follows.
    ///
    /// The payload is encoded at the codec's own level before anything is
    /// written. On failure the archive stays as it was.
    pub fn append_file_no_extend(
        &mut self,
        file_name: &str,
        datetime: FileDateTime,
        compressor: Compressor,
        source: &[u8],
    ) -> (result: Result<(), ArchiveError>)
        requires
            old(self).wf(),
            !old(self).is_finalized(),
        ensures
            final(self).wf(),
            !final(self).is_finalized(),
            final(self).preamble() == old(self).preamble(),
            result is Ok ==> {
                let entry = written_entry(
                    file_name@,
                    headed_options(datetime, compressor),
                    old(self).written().len(),
                    source@,
                    false,
                );
                let payload = compressor.spec_encode(source@, None);
                &&& final(self)@ == old(self)@.push(entry, payload, Some(source@))
                &&& final(self).written() == old(self).written() + entry_bytes(entry, payload)
            },
            result matches Err(error) ==> {
                &&& final(self)@ == old(self)@
                &&& final(self).written() == old(self).written()
                &&& !(compressor is Store)
                &&& match compressor {
                    Compressor::Unknown(code) => error == ArchiveError::UnsuportedCompressionMethod(
                        code,
                    ),
                    _ => error is IoError,
                }
            },
            compressor is Store ==> result is Ok,
            compressor is Unknown ==> result is Err,
    {
        let options = FileOptions::default().compression_method(compressor).last_modified_time(
            datetime,
        );
        self.writer.append_headed(file_name, source, &options)
    }

    /// Appends the file `file_name`, whose payload of `uncompressed_size` bytes
    /// with the checksum `crc32` has been encoded to `stream` already, as a
    /// streamed entry: the local header leaves checksum and sizes at zero, and
    /// they follow `stream` in a data descriptor.
    ///
    /// The numbers and the stream are taken as they are given.
    pub fn append_encoded(
        &mut self,
        file_name: &str,
        options: &FileOptions,
        crc32: u32,
        uncompressed_size: usize,
        stream: &[u8],
    )
        requires
            old(self).wf(),
            !old(self).is_finalized(),
        ensures
            final(self).wf(),
            !final(self).is_finalized(),
            final(self).preamble() == old(self).preamble(),
            ({
                let entry = encoded_entry(
                    file_name@,
                    options@,
                    old(self).written().len(),
                    crc32,
                    uncompressed_size as nat,
                    stream@,
                    true,
                );
                &&& final(self)@ == old(self)@.push(entry, stream@, None)
                &&& final(self).written() == old(self).written() + entry_bytes(entry, stream@)
            }),
    {
        self.writer.append_streamed_encoded(file_name, options, crc32, uncompressed_size, stream);
    }

    /// Appends the file `file_name`, whose payload of `uncompressed_size` bytes
    /// with the checksum `crc32` has been encoded to `stream` already, as a
    /// headed entry: the local header holds checksum and sizes, and `stream`
    /// follows it.
    ///
    /// The numbers and the stream are taken as they are given.
    pub fn append_encoded_no_extend(
        &mut self,
        file_name: &str,
        options: &FileOptions,
        crc32: u32,
        uncompressed_size: usize,
        stream: &[u8],
    )
        requires
            old(self).wf(),
            !old(self).is_finalized(),
        ensures
            final(self).wf(),
            !final(self).is_finalized(),
            final(self).preamble() == old(self).preamble(),
            ({
                let entry = encoded_entry(
                    file_name@,
                    options@,
                    old(self).written().len(),
                    crc32,
                    uncompressed_size as nat,
                    stream@,
                    false,
                );
                &&& final(self)@ == old(self)@.push(entry, stream@, None)
                &&& final(self).written() == old(self).written() + entry_bytes(entry, stream@)
            }),
    {
        self.writer.append_headed_encoded(file_name, options, crc32, uncompressed_size, stream);
    }

    /// Writes the central directory and the end record. Nothing can be appended
    /// afterwards.
    pub fn finalize(&mut self) -> (result: Result<(), ArchiveError>)
        requires
            old(self).wf(),
            !old(self).is_finalized(),
        ensures
            result is Ok,
            final(self).wf(),
            final(self).is_finalized(),
            final(self)@ == old(self)@,
            final(self).preamble() == old(self).preamble(),
            final(self).written() == old(self).written() + archive_trailer(
                old(self)@.entries,
                old(self).written().len(),
                old(self)@.comment,
            ),
    {
        self.writer.finalize()
    }
}

} // verus!

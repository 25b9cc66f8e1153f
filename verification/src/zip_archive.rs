//! The archive that is written strictly forward, with a data descriptor behind
//! every payload.

use vstd::prelude::*;
use crate::archive::FileOptions;
use crate::archive_common::SubZipArchiveData;
use crate::archive_common::ZipArchiveCommon;
use crate::compression::Compressor;
use crate::error::ArchiveError;
use crate::forward_writer::ForwardWriter;
use crate::layout::archive_trailer;
use crate::layout::blank_local_file_header;
use crate::layout::encoded_entry;
use crate::layout::entry_bytes;
use crate::layout::is_multibyte;
use crate::layout::lemma_entry_flags;
use crate::layout::truncated_comment;
use crate::layout::written_entry;
use crate::model::ArchiveView;
use crate::model::lemma_push_deferred;

verus! {

/// A ZIP archive that is written strictly forward: each payload is followed by a
/// data descriptor that holds its checksum and sizes.
pub struct ZipArchive {
    writer: ForwardWriter,
}

impl View for ZipArchive {
    type V = ArchiveView;

    closed spec fn view(&self) -> ArchiveView {
        self.writer@
    }
}

impl ZipArchive {
    /// The bytes written to the sink so far.
    pub closed spec fn written(&self) -> Seq<u8> {
        self.writer.written()
    }

    /// The bytes that the sink held before the archive was begun.
    pub closed spec fn preamble(&self) -> Seq<u8> {
        self.writer.preamble()
    }

    /// The central directory and the end record have been written.
    pub closed spec fn is_finalized(&self) -> bool {
        self.writer.is_finalized()
    }

    /// The sink's count is the number of bytes written to it.
    pub closed spec fn sink_valid(&self) -> bool {
        self.writer.sink_valid()
    }

    /// The sink holds the entries that the records describe, each with a data
    /// descriptor, and behind them, once the archive is finalized, the central
    /// directory and the end record.
    pub open spec fn wf(&self) -> bool {
        &&& self.sink_valid()
        &&& self@.wf()
        &&& self@.all_deferred()
        &&& self.written() == if self.is_finalized() {
            self@.bytes() + archive_trailer(self@.entries, self@.bytes().len(), self@.comment)
        } else {
            self@.bytes()
        }
    }

    /// Begins an archive behind what `sink_` holds.
    pub fn new(sink_: Vec<u8>) -> (archive: ZipArchive)
        ensures
            archive.wf(),
            !archive.is_finalized(),
            archive@.entries.len() == 0,
            archive@.comment.len() == 0,
            archive.written().len() == 0,
            archive.preamble() == sink_@,
    {
        ZipArchive { writer: ForwardWriter::new(sink_) }
    }

    /// The number of bytes written to the sink so far.
    pub fn get_archive_size(&self) -> (size: usize)
        requires
            self.wf(),
        ensures
            size == self.written().len(),
    {
        self.writer.archive_length()
    }

    /// What the sink holds: what it held at first, then the archive.
    pub fn get_ref(&self) -> (bytes: &[u8])
        requires
            self.wf(),
        ensures
            bytes@ == self.preamble() + self.written(),
    {
        self.writer.get_ref()
    }

    /// Gives up the sink: what it held at first, then the archive.
    pub fn retrieve_writer(self) -> (sink: Vec<u8>)
        requires
            self.wf(),
        ensures
            sink@ == self.preamble() + self.written(),
    {
        self.writer.retrieve_writer()
    }

    /// Sets the comment of the archive to the first 65535 bytes of `comment`.
    pub fn set_archive_comment(&mut self, comment: &str)
        requires
            old(self).wf(),
            !old(self).is_finalized(),
        ensures
            final(self).wf(),
            !final(self).is_finalized(),
            final(self).written() == old(self).written(),
            final(self).preamble() == old(self).preamble(),
            final(self)@ == (ArchiveView { comment: truncated_comment(comment@), ..old(self)@ }),
    {
        self.writer.set_comment(comment);
    }

    /// Appends the file `file_name` with the payload `source`.
    ///
    /// The local header leaves checksum and sizes at zero; they follow the encoded
    /// payload in a data descriptor. An unknown compression method is refused
    /// before anything is written. When a codec fails, the header has been written
    /// and the archive cannot be used any further.
    pub fn append_file(
        &mut self,
        file_name: &str,
        source: &[u8],
        options: &FileOptions,
    ) -> (result: Result<(), ArchiveError>)
        requires
            old(self).wf(),
            !old(self).is_finalized(),
        ensures
            !final(self).is_finalized(),
            final(self).preamble() == old(self).preamble(),
            result is Ok ==> {
                let entry = written_entry(
                    file_name@,
                    options@,
                    old(self).written().len(),
                    source@,
                    true,
                );
                let payload = options@.compressor.spec_encode(source@, options@.compression_level);
                &&& final(self).wf()
                &&& final(self)@ == old(self)@.push(entry, payload, Some(source@))
                &&& final(self).written() == old(self).written() + entry_bytes(entry, payload)
            },
            result matches Err(error) ==> {
                &&& final(self)@ == old(self)@
                &&& !(options@.compressor is Store)
                &&& match options@.compressor {
                    Compressor::Unknown(code) => {
                        &&& error == ArchiveError::UnsuportedCompressionMethod(code)
                        &&& final(self).written() == old(self).written()
                        &&& final(self).wf()
                    },
                    _ => {
                        &&& error is IoError
                        &&& final(self).written() == old(self).written() + blank_local_file_header(
                            written_entry(
                                file_name@,
                                options@,
                                old(self).written().len(),
                                source@,
                                true,
                            ),
                        )
                    },
                }
            },
            options@.compressor is Store ==> result is Ok,
            options@.compressor is Unknown ==> result is Err,
    {
        let result = self.writer.append_streamed(file_name, source, options);
        proof {
            if result is Ok {
                lemma_entry_flags(true, is_multibyte(file_name@));
                lemma_push_deferred(
                    old(self)@,
                    written_entry(file_name@, options@, old(self).written().len(), source@, true),
                    options@.compressor.spec_encode(source@, options@.compression_level),
                    Some(source@),
                );
            }
        }
        result
    }

    /// Appends the file `file_name`, whose payload of `uncompressed_size` bytes
    /// with the checksum `crc32` has been encoded to `stream` already: the local
    /// header leaves checksum and sizes at zero, and they follow `stream` in a
    /// data descriptor.
    ///
    /// The numbers and the stream are taken as they are given.
    pub fn append_encoded(
        &mut self,
        file_name: &str,
        options: &FileOptions,
        crc32: u32,
        uncompressed_size: usize,
        stream: &[u8],
    )
        requires
            old(self).wf(),
            !old(self).is_finalized(),
        ensures
            final(self).wf(),
            !final(self).is_finalized(),
            final(self).preamble() == old(self).preamble(),
            ({
                let entry = encoded_entry(
                    file_name@,
                    options@,
                    old(self).written().len(),
                    crc32,
                    uncompressed_size as nat,
                    stream@,
                    true,
                );
                &&& final(self)@ == old(self)@.push(entry, stream@, None)
                &&& final(self).written() == old(self).written() + entry_bytes(entry, stream@)
            }),
    {
        self.writer.append_streamed_encoded(file_name, options, crc32, uncompressed_size, stream);
        proof {
            lemma_entry_flags(true, is_multibyte(file_name@));
            lemma_push_deferred(
                old(self)@,
                encoded_entry(
                    file_name@,
                    options@,
                    old(self).written().len(),
                    crc32,
                    uncompressed_size as nat,
                    stream@,
                    true,
                ),
                stream@,
                None,
            );
        }
    }

    /// Writes the central directory and the end record. Nothing can be appended
    /// afterwards.
    pub fn finalize(&mut self) -> (result: Result<(), ArchiveError>)
        requires
            old(self).wf(),
            !old(self).is_finalized(),
        ensures
            result is Ok,
            final(self).wf(),
            final(self).is_finalized(),
            final(self)@ == old(self)@,
            final(self).preamble() == old(self).preamble(),
            final(self).written() == old(self).written() + archive_trailer(
                old(self)@.entries,
                old(self).written().len(),
                old(self)@.comment,
            ),
    {
        self.writer.finalize()
    }
}

impl ZipArchiveCommon for ZipArchive {
    open spec fn archive_size(&self) -> nat {
        self.written().len()
    }

    closed spec fn data(&self) -> SubZipArchiveData {
        self.writer.data()
    }

    open spec fn valid(&self) -> bool {
        self.wf()
    }

    fn get_archive_size(&self) -> (size: usize) {
        self.writer.get_archive_size()
    }

    fn get_data(&self) -> (data: &SubZipArchiveData)
        ensures
            data@ == self@,
    {
        self.writer.get_data()
    }
}

} // verus!

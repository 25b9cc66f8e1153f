//! The writer that only ever adds bytes at the end of its sink.

use vstd::prelude::*;
use crate::archive::FileOptions;
use crate::archive_common::build_central_directory_end;
use crate::archive_common::build_central_directory_file_header;
use crate::archive_common::build_data_descriptor;
use crate::archive_common::build_file_header;
use crate::archive_common::build_local_file_header;
use crate::archive_common::new_file_entry;
use crate::archive_common::SubZipArchiveData;
use crate::archive_common::ZipArchiveCommon;
use crate::async_write_wrapper::AsyncWriteWrapper;
use crate::compression::Compressor;
use crate::constants::CENTRAL_DIRECTORY_ENTRY_BASE_SIZE;
use crate::descriptor::ArchiveDescriptor;
use crate::error::ArchiveError;
use crate::layout::archive_trailer;
use crate::layout::blank_local_file_header;
use crate::layout::central_directory;
use crate::layout::encoded_entry;
use crate::layout::end_of_central_directory;
use crate::layout::entry_bytes;
use crate::layout::is_multibyte;
use crate::layout::is_new_entry;
use crate::layout::lemma_entry_flags;
use crate::layout::lemma_new_entry;
use crate::layout::local_file_header;
use crate::layout::new_entry;
use crate::layout::truncated_comment;
use crate::layout::with_sizes;
use crate::layout::written_entry;
use crate::model::ArchiveView;
use crate::model::describes;
use crate::model::lemma_push_entry;
use crate::types::ArchiveFileEntry;

verus! {

/// A ZIP archive in the making on a sink that only takes bytes at its end.
///
/// An entry is either streamed, its checksum and sizes following the payload in a
/// data descriptor, or headed, its local header holding them.
pub struct ForwardWriter {
    sink: AsyncWriteWrapper,
    data: SubZipArchiveData,
    finalized: bool,
}

impl View for ForwardWriter {
    type V = ArchiveView;

    closed spec fn view(&self) -> ArchiveView {
        self.data@
    }
}

impl ForwardWriter {
    /// The bytes written to the sink so far.
    pub closed spec fn written(&self) -> Seq<u8> {
        self.sink@
    }

    /// The bytes that the sink held before the archive was begun.
    pub closed spec fn preamble(&self) -> Seq<u8> {
        self.sink.initial()
    }

    /// The central directory and the end record have been written.
    pub closed spec fn is_finalized(&self) -> bool {
        self.finalized
    }

    /// The sink's count is the number of bytes written to it.
    pub closed spec fn sink_valid(&self) -> bool {
        self.sink.wf()
    }

    /// The sink holds the entries that the records describe and behind them, once
    /// the archive is finalized, the central directory and the end record.
    pub open spec fn wf(&self) -> bool {
        &&& self.sink_valid()
        &&& self@.wf()
        &&& self.written() == if self.is_finalized() {
            self@.bytes() + archive_trailer(self@.entries, self@.bytes().len(), self@.comment)
        } else {
            self@.bytes()
        }
    }

    /// Begins an archive behind what `sink_` holds.
    pub fn new(sink_: Vec<u8>) -> (archive: ForwardWriter)
        ensures
            archive.wf(),
            !archive.is_finalized(),
            archive@.entries.len() == 0,
            archive@.comment.len() == 0,
            archive.written().len() == 0,
            archive.preamble() == sink_@,
    {
        let archive = ForwardWriter {
            sink: AsyncWriteWrapper::new(sink_),
            data: SubZipArchiveData::new(),
            finalized: false,
        };
        assert(archive@.bytes() =~= Seq::<u8>::empty());
        archive
    }

    /// The number of bytes written to the sink so far.
    pub fn archive_length(&self) -> (size: usize)
        requires
            self.wf(),
        ensures
            size == self.written().len(),
    {
        self.sink.get_written_bytes_count()
    }

    /// What the sink holds: what it held at first, then the archive.
    pub fn get_ref(&self) -> (bytes: &[u8])
        requires
            self.wf(),
        ensures
            bytes@ == self.preamble() + self.written(),
    {
        self.sink.get_ref()
    }

    /// Gives up the sink: what it held at first, then the archive.
    pub fn retrieve_writer(self) -> (sink: Vec<u8>)
        requires
            self.wf(),
        ensures
            sink@ == self.preamble() + self.written(),
    {
        self.sink.retrieve_writer()
    }

    /// Sets the comment of the archive to the first 65535 bytes of `comment`.
    pub fn set_comment(&mut self, comment: &str)
        requires
            old(self).wf(),
            !old(self).is_finalized(),
        ensures
            final(self).wf(),
            !final(self).is_finalized(),
            final(self).written() == old(self).written(),
            final(self).preamble() == old(self).preamble(),
            final(self)@ == (ArchiveView {
                comment: truncated_comment(comment@),
                ..old(self)@
            }),
    {
        self.data.set_comment(comment.as_bytes());
    }

    /// Writes the local header of a streamed entry, checksum and sizes at zero,
    /// and hands out the entry's record, in which they are zero too.
    fn begin_streamed(&mut self, file_name: &str, options: &FileOptions) -> (entry:
        ArchiveFileEntry)
        requires
            old(self).sink.wf(),
        ensures
            final(self).data == old(self).data,
            final(self).finalized == old(self).finalized,
            final(self).sink.wf(),
            final(self).sink.initial() == old(self).sink.initial(),
            entry@ == new_entry(
                file_name@,
                options@,
                options@.compressor,
                old(self).sink@.len() as u32,
                true,
            ),
            final(self).sink@ == old(self).sink@ + local_file_header(entry@),
    {
        let offset = #[verifier::truncate] (self.sink.get_written_bytes_count() as u32);
        let (file_header, archive_file_entry) = build_file_header(
            file_name,
            options,
            options.get_compression_method(),
            offset,
            true,
        );
        self.sink.write_all(file_header.buffer());
        archive_file_entry
    }

    /// Completes a streamed entry whose header and payload have been written:
    /// writes the data descriptor and keeps the record.
    fn finish_streamed(
        &mut self,
        entry: ArchiveFileEntry,
        crc32: u32,
        compressed_size: usize,
        uncompressed_size: usize,
        Ghost(before): Ghost<ArchiveView>,
        Ghost(payload): Ghost<Seq<u8>>,
        Ghost(source): Ghost<Option<Seq<u8>>>,
    )
        requires
            old(self).sink.wf(),
            !old(self).finalized,
            old(self).data@ == before,
            before.wf(),
            compressed_size == payload.len(),
            is_new_entry(entry@, before.bytes().len() as u32, true),
            old(self).sink@ == before.bytes() + local_file_header(entry@) + payload,
            source matches Some(given) ==> describes(
                with_sizes(
                    entry@,
                    crc32,
                    compressed_size as u32,
                    uncompressed_size as u32,
                ),
                payload,
                given,
            ),
        ensures
            final(self).wf(),
            !final(self).is_finalized(),
            final(self).preamble() == old(self).preamble(),
            final(self)@ == before.push(
                with_sizes(entry@, crc32, compressed_size as u32, uncompressed_size as u32),
                payload,
                source,
            ),
            final(self).written() == before.bytes() + entry_bytes(
                with_sizes(entry@, crc32, compressed_size as u32, uncompressed_size as u32),
                payload,
            ),
    {
        let ghost blank = entry@;
        let mut archive_file_entry = entry;
        archive_file_entry.crc32 = crc32;
        archive_file_entry.compressed_size = #[verifier::truncate] (compressed_size as u32);
        archive_file_entry.uncompressed_size = #[verifier::truncate] (uncompressed_size as u32);

        let file_descriptor = build_data_descriptor(&archive_file_entry);
        self.sink.write_all(file_descriptor.buffer());

        proof {
            let complete = archive_file_entry@;
            lemma_new_entry(blank, before.bytes().len() as u32, true);
            assert(with_sizes(complete, 0, 0, 0) == blank);
            assert(self.sink@ =~= before.bytes() + entry_bytes(complete, payload));
            lemma_push_entry(before, complete, payload, source);
        }
        self.data.push(archive_file_entry, Ghost(payload), Ghost(source));
    }

    /// Appends the file `file_name` with the payload `source`.
    ///
    /// The local header leaves checksum and sizes at zero; they follow the encoded
    /// payload in a data descriptor. An unknown compression method is refused
    /// before anything is written. When a codec fails, the header has been written
    /// and the archive cannot be used any further.
    pub fn append_streamed(
        &mut self,
        file_name: &str,
        source: &[u8],
        options: &FileOptions,
    ) -> (result: Result<(), ArchiveError>)
        requires
            old(self).wf(),
            !old(self).is_finalized(),
        ensures
            !final(self).is_finalized(),
            final(self).preamble() == old(self).preamble(),
            result is Ok ==> {
                let entry = written_entry(
                    file_name@,
                    options@,
                    old(self).written().len(),
                    source@,
                    true,
                );
                let payload = options@.compressor.spec_encode(source@, options@.compression_level);
                &&& final(self).wf()
                &&& final(self)@ == old(self)@.push(entry, payload, Some(source@))
                &&& final(self).written() == old(self).written() + entry_bytes(entry, payload)
            },
            result matches Err(error) ==> {
                &&& final(self)@ == old(self)@
                &&& !(options@.compressor is Store)
                &&& match options@.compressor {
                    Compressor::Unknown(code) => {
                        &&& error == ArchiveError::UnsuportedCompressionMethod(code)
                        &&& final(self).written() == old(self).written()
                        &&& final(self).wf()
                    },
                    _ => {
                        &&& error is IoError
                        &&& final(self).written() == old(self).written() + blank_local_file_header(
                            written_entry(
                                file_name@,
                                options@,
                                old(self).written().len(),
                                source@,
                                true,
                            ),
                        )
                    },
                }
            },
            options@.compressor is Store ==> result is Ok,
            options@.compressor is Unknown ==> result is Err,
    {
        let compressor = options.get_compression_method();
        if let Compressor::Unknown(compression_method) = compressor {
            return Err(ArchiveError::UnsuportedCompressionMethod(compression_method));
        }
        let archive_file_entry = self.begin_streamed(file_name, options);

        let cur_size = self.sink.get_written_bytes_count();
        let (uncompressed_size, crc32) = compressor.compress(
            &mut self.sink,
            source,
            options.get_compression_level(),
        )?;
        let compressed_size = self.sink.get_written_bytes_count() - cur_size;

        self.finish_streamed(
            archive_file_entry,
            crc32,
            compressed_size,
            uncompressed_size,
            Ghost(old(self)@),
            Ghost(compressor.spec_encode(source@, options@.compression_level)),
            Ghost(Some(source@)),
        );
        Ok(())
    }

    /// Appends the file `file_name`, whose payload of `uncompressed_size` bytes
    /// with the checksum `crc32` has been encoded to `stream` already, as a
    /// streamed entry: the local header leaves checksum and sizes at zero, and
    /// they follow `stream` in a data descriptor.
    ///
    /// The numbers and the stream are taken as they are given.
    pub fn append_streamed_encoded(
        &mut self,
        file_name: &str,
        options: &FileOptions,
        crc32: u32,
        uncompressed_size: usize,
        stream: &[u8],
    )
        requires
            old(self).wf(),
            !old(self).is_finalized(),
        ensures
            final(self).wf(),
            !final(self).is_finalized(),
            final(self).preamble() == old(self).preamble(),
            ({
                let entry = encoded_entry(
                    file_name@,
                    options@,
                    old(self).written().len(),
                    crc32,
                    uncompressed_size as nat,
                    stream@,
                    true,
                );
                &&& final(self)@ == old(self)@.push(entry, stream@, None)
                &&& final(self).written() == old(self).written() + entry_bytes(entry, stream@)
            }),
    {
        let archive_file_entry = self.begin_streamed(file_name, options);
        self.sink.write_all(stream);
        self.finish_streamed(
            archive_file_entry,
            crc32,
            stream.len(),
            uncompressed_size,
            Ghost(old(self)@),
            Ghost(stream@),
            Ghost(None),
        );
    }

    /// Writes a headed entry whose payload has been encoded: the local header
    /// with checksum and sizes, then the payload.
    fn append_headed_entry(
        &mut self,
        file_name: &str,
        options: &FileOptions,
        crc32: u32,
        uncompressed_size: usize,
        stream: &[u8],
        Ghost(source): Ghost<Option<Seq<u8>>>,
    )
        requires
            old(self).wf(),
            !old(self).is_finalized(),
            source matches Some(given) ==> describes(
                encoded_entry(
                    file_name@,
                    options@,
                    old(self).written().len(),
                    crc32,
                    uncompressed_size as nat,
                    stream@,
                    false,
                ),
                stream@,
                given,
            ),
        ensures
            final(self).wf(),
            !final(self).is_finalized(),
            final(self).preamble() == old(self).preamble(),
            ({
                let entry = encoded_entry(
                    file_name@,
                    options@,
                    old(self).written().len(),
                    crc32,
                    uncompressed_size as nat,
                    stream@,
                    false,
                );
                &&& final(self)@ == old(self)@.push(entry, stream@, source)
                &&& final(self).written() == old(self).written() + entry_bytes(entry, stream@)
            }),
    {
        let offset = #[verifier::truncate] (self.sink.get_written_bytes_count() as u32);
        let mut archive_file_entry = new_file_entry(
            file_name,
            options,
            options.get_compression_method(),
            offset,
            false,
        );
        archive_file_entry.crc32 = crc32;
        archive_file_entry.compressed_size = #[verifier::truncate] (stream.len() as u32);
        archive_file_entry.uncompressed_size = #[verifier::truncate] (uncompressed_size as u32);

        let file_header = build_local_file_header(&archive_file_entry);
        self.sink.write_all(file_header.buffer());
        self.sink.write_all(stream);

        proof {
            let entry = archive_file_entry@;
            lemma_entry_flags(false, is_multibyte(file_name@));
            assert(self.sink@ =~= old(self).written() + entry_bytes(entry, stream@));
            lemma_push_entry(old(self)@, entry, stream@, source);
        }
        self.data.push(archive_file_entry, Ghost(stream@), Ghost(source));
    }

    /// Appends the file `file_name` with the payload `source`, its local header
    /// holding checksum and sizes.
    ///
    /// The payload is encoded before anything is written, so that the header can
    /// say what it takes. On failure the archive stays as it was.
    pub fn append_headed(
        &mut self,
        file_name: &str,
        source: &[u8],
        options: &FileOptions,
    ) -> (result: Result<(), ArchiveError>)
        requires
            old(self).wf(),
            !old(self).is_finalized(),
        ensures
            final(self).wf(),
            !final(self).is_finalized(),
            final(self).preamble() == old(self).preamble(),
            result is Ok ==> {
                let entry = written_entry(
                    file_name@,
                    options@,
                    old(self).written().len(),
                    source@,
                    false,
                );
                let payload = options@.compressor.spec_encode(source@, options@.compression_level);
                &&& final(self)@ == old(self)@.push(entry, payload, Some(source@))
                &&& final(self).written() == old(self).written() + entry_bytes(entry, payload)
            },
            result matches Err(error) ==> {
                &&& final(self)@ == old(self)@
                &&& final(self).written() == old(self).written()
                &&& !(options@.compressor is Store)
                &&& match options@.compressor {
                    Compressor::Unknown(code) => error == ArchiveError::UnsuportedCompressionMethod(
                        code,
                    ),
                    _ => error is IoError,
                }
            },
            options@.compressor is Store ==> result is Ok,
            options@.compressor is Unknown ==> result is Err,
    {
        let compressor = options.get_compression_method();

        let mut scratch = AsyncWriteWrapper::new(Vec::new());
        let (uncompressed_size, crc32) = compressor.compress(
            &mut scratch,
            source,
            options.get_compression_level(),
        )?;
        let retrieved_buffer = scratch.retrieve_writer();
        assert(retrieved_buffer@ =~= compressor.spec_encode(source@, options@.compression_level));

        self.append_headed_entry(
            file_name,
            options,
            crc32,
            uncompressed_size,
            retrieved_buffer.as_slice(),
            Ghost(Some(source@)),
        );
        Ok(())
    }

    /// Appends the file `file_name`, whose payload of `uncompressed_size` bytes
    /// with the checksum `crc32` has been encoded to `stream` already, as a
    /// headed entry: the local header holds checksum and sizes, and `stream`
    /// follows it.
    ///
    /// The numbers and the stream are taken as they are given.
    pub fn append_headed_encoded(
        &mut self,
        file_name: &str,
        options: &FileOptions,
        crc32: u32,
        uncompressed_size: usize,
        stream: &[u8],
    )
        requires
            old(self).wf(),
            !old(self).is_finalized(),
        ensures
            final(self).wf(),
            !final(self).is_finalized(),
            final(self).preamble() == old(self).preamble(),
            ({
                let entry = encoded_entry(
                    file_name@,
                    options@,
                    old(self).written().len(),
                    crc32,
                    uncompressed_size as nat,
                    stream@,
                    false,
                );
                &&& final(self)@ == old(self)@.push(entry, stream@, None)
                &&& final(self).written() == old(self).written() + entry_bytes(entry, stream@)
            }),
    {
        self.append_headed_entry(file_name, options, crc32, uncompressed_size, stream, Ghost(None));
    }

    /// Writes the central directory and the end record. Nothing can be appended
    /// afterwards.
    pub fn finalize(&mut self) -> (result: Result<(), ArchiveError>)
        requires
            old(self).wf(),
            !old(self).is_finalized(),
        ensures
            result is Ok,
            final(self).wf(),
            final(self).is_finalized(),
            final(self)@ == old(self)@,
            final(self).preamble() == old(self).preamble(),
            final(self).written() == old(self).written() + archive_trailer(
                old(self)@.entries,
                old(self).written().len(),
                old(self)@.comment,
            ),
    {
        let start = self.sink.get_written_bytes_count();
        let central_directory_offset = #[verifier::truncate] (start as u32);

        let mut central_directory_header = ArchiveDescriptor::new(
            CENTRAL_DIRECTORY_ENTRY_BASE_SIZE + 200,
        );

        let count = self.data.entry_count();
        let mut index: usize = 0;
        while index < count
            invariant
                index <= count,
                count == self@.entries.len(),
                self.data == old(self).data,
                self.finalized == old(self).finalized,
                self.sink.wf(),
                self.sink.initial() == old(self).sink.initial(),
                central_directory_header@.len() == 0,
                self.sink@ == old(self).written() + central_directory(
                    self@.entries.take(index as int),
                ),
            decreases count - index,
        {
            build_central_directory_file_header(
                &mut central_directory_header,
                self.data.entry(index),
            );
            self.sink.write_all(central_directory_header.buffer());
            central_directory_header.clear();
            assert(self@.entries.take(index + 1).drop_last() =~= self@.entries.take(index as int));
            index += 1;
        }
        assert(self@.entries.take(count as int) =~= self@.entries);

        let current_archive_size = self.sink.get_written_bytes_count();
        let central_directory_size = #[verifier::truncate] ((current_archive_size - start) as u32);
        let end_of_central_directory = build_central_directory_end(
            &*self,
            central_directory_offset,
            central_directory_size,
        );
        self.sink.write_all(end_of_central_directory.buffer());
        self.finalized = true;
        assert(self.sink@ =~= old(self).written() + archive_trailer(
            old(self)@.entries,
            old(self).written().len(),
            old(self)@.comment,
        ));
        Ok(())
    }
}

impl ZipArchiveCommon for ForwardWriter {
    open spec fn archive_size(&self) -> nat {
        self.written().len()
    }

    closed spec fn data(&self) -> SubZipArchiveData {
        self.data
    }

    open spec fn valid(&self) -> bool {
        self.wf()
    }

    fn get_archive_size(&self) -> (size: usize) {
        self.sink.get_written_bytes_count()
    }

    fn get_data(&self) -> (data: &SubZipArchiveData)
        ensures
            data@ == self@,
    {
        &self.data
    }
}

} // verus!

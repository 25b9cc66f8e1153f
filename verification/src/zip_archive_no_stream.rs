//! The archive on a seekable sink, whose local headers are completed once the
//! payload is written.

use vstd::prelude::*;
use crate::archive::FileOptions;
use crate::archive_common::build_central_directory_end;
use crate::archive_common::build_central_directory_file_header;
use crate::archive_common::build_file_header;
use crate::archive_common::build_size_fields;
use crate::archive_common::SubZipArchiveData;
use crate::archive_common::ZipArchiveCommon;
use crate::compression::Compressor;
use crate::constants::CENTRAL_DIRECTORY_ENTRY_BASE_SIZE;
use crate::constants::FILE_HEADER_CRC_OFFSET;
use crate::descriptor::ArchiveDescriptor;
use crate::error::ArchiveError;
use crate::layout::archive_trailer;
use crate::layout::blank_local_file_header;
use crate::layout::central_directory;
use crate::layout::encoded_entry;
use crate::layout::end_of_central_directory;
use crate::layout::entry_bytes;
use crate::layout::is_new_entry;
use crate::layout::lemma_entry_length;
use crate::layout::lemma_new_entry;
use crate::layout::local_file_header;
use crate::layout::local_file_header_end;
use crate::layout::local_file_header_start;
use crate::layout::new_entry;
use crate::layout::size_fields;
use crate::layout::truncated_comment;
use crate::layout::with_sizes;
use crate::layout::written_entry;
use crate::memory_sink::lemma_overwrite_extends;
use crate::memory_sink::lemma_overwrite_patch;
use crate::memory_sink::lemma_overwrite_twice;
use crate::memory_sink::MemorySink;
use crate::memory_sink::overwrite;
use crate::model::ArchiveView;
use crate::model::describes;
use crate::model::lemma_push_entry;
use crate::model::lemma_push_headed;
use crate::types::ArchiveFileEntry;
use crate::types::EntryView;

verus! {

/// Writing a local header with checksum and sizes at zero, then the payload,
/// then going back and writing checksum and sizes into the header gives what
/// writing the complete header and the payload would have given.
proof fn lemma_patched_header(contents: Seq<u8>, position: int, entry: EntryView, payload: Seq<u8>)
    requires
        0 <= position <= contents.len(),
    ensures
        overwrite(
            overwrite(
                overwrite(contents, position, blank_local_file_header(entry)),
                position + blank_local_file_header(entry).len(),
                payload,
            ),
            position + FILE_HEADER_CRC_OFFSET,
            size_fields(entry),
        ) == overwrite(contents, position, local_file_header(entry) + payload),
{
    let blank = with_sizes(entry, 0, 0, 0);
    let before = local_file_header_start(entry);
    let after = local_file_header_end(entry) + payload;
    assert(before.len() == FILE_HEADER_CRC_OFFSET);
    assert(local_file_header_start(blank) == before);
    assert(local_file_header_end(blank) == local_file_header_end(entry));
    assert(size_fields(blank).len() == size_fields(entry).len());
    lemma_overwrite_twice(contents, position, local_file_header(blank), payload);
    assert(local_file_header(blank) + payload =~= before + size_fields(blank) + after);
    assert(local_file_header(entry) + payload =~= before + size_fields(entry) + after);
    lemma_overwrite_patch(
        contents,
        position,
        before,
        size_fields(blank),
        size_fields(entry),
        after,
    );
}

/// A ZIP archive on a sink that can seek: once a payload is written, the writer
/// goes back and puts checksum and sizes into the local header, so that no data
/// descriptor is needed.
pub struct ZipArchiveNoStream {
    sink: MemorySink,
    data: SubZipArchiveData,
    start: u64,
    archive_size: u64,
    finalized: bool,
}

impl View for ZipArchiveNoStream {
    type V = ArchiveView;

    closed spec fn view(&self) -> ArchiveView {
        self.data@
    }
}

impl ZipArchiveNoStream {
    /// Everything that the sink holds.
    pub closed spec fn sink(&self) -> Seq<u8> {
        self.sink@
    }

    /// The position in the sink at which the archive begins.
    pub closed spec fn origin(&self) -> nat {
        self.start as nat
    }

    /// The number of bytes that the archive takes so far.
    pub closed spec fn size(&self) -> nat {
        self.archive_size as nat
    }

    /// The archive is written and the write position stands at its end.
    pub closed spec fn at_end(&self) -> bool {
        self.sink.position() == self.start + self.archive_size
    }

    /// The central directory and the end record have been written.
    pub closed spec fn is_finalized(&self) -> bool {
        self.finalized
    }

    /// The position in the sink at which the archive ends.
    pub open spec fn end(&self) -> int {
        (self.origin() + self.size()) as int
    }

    /// The bytes of the archive: what the sink holds from the origin on, as far
    /// as the archive reaches.
    pub open spec fn written(&self) -> Seq<u8> {
        self.sink().subrange(self.origin() as int, self.end())
    }

    /// The bytes that stand in the sink before the archive.
    pub open spec fn preamble(&self) -> Seq<u8> {
        self.sink().take(self.origin() as int)
    }

    /// The sink holds, from the origin on, the entries that the records describe,
    /// none with a data descriptor, and behind them, once the archive is
    /// finalized, the central directory and the end record.
    pub open spec fn wf(&self) -> bool {
        &&& self.at_end()
        &&& self.end() <= self.sink().len()
        &&& self@.wf()
        &&& self@.none_deferred()
        &&& self.written() == if self.is_finalized() {
            self@.bytes() + archive_trailer(self@.entries, self@.bytes().len(), self@.comment)
        } else {
            self@.bytes()
        }
    }

    /// Begins an archive at the write position of `sink`. What the sink holds
    /// from there on is overwritten as the archive grows.
    pub fn new(sink: MemorySink) -> (archive: ZipArchiveNoStream)
        requires
            sink.wf(),
        ensures
            archive.wf(),
            !archive.is_finalized(),
            archive@.entries.len() == 0,
            archive@.comment.len() == 0,
            archive.size() == 0,
            archive.origin() == sink.position(),
            archive.sink() == sink@,
    {
        let start = sink.stream_position();
        let archive = ZipArchiveNoStream {
            sink,
            data: SubZipArchiveData::new(),
            start,
            archive_size: 0,
            finalized: false,
        };
        assert(archive@.bytes() =~= Seq::<u8>::empty());
        assert(archive.written() =~= Seq::<u8>::empty());
        archive
    }

    /// Everything that the sink holds.
    pub fn get_ref(&self) -> (bytes: &[u8])
        ensures
            bytes@ == self.sink(),
    {
        self.sink.get_ref()
    }

    /// Gives up the sink.
    pub fn retrieve_writer(self) -> (sink: MemorySink)
        ensures
            sink@ == self.sink(),
    {
        self.sink
    }

    /// The number of bytes that the archive takes so far.
    pub fn get_archive_size(&self) -> (size: u64)
        ensures
            size == self.size(),
    {
        self.archive_size
    }

    /// Sets the comment of the archive to the first 65535 bytes of `comment`.
    pub fn set_archive_comment(&mut self, comment: &str)
        requires
            old(self).wf(),
            !old(self).is_finalized(),
        ensures
            final(self).wf(),
            !final(self).is_finalized(),
            final(self).sink() == old(self).sink(),
            final(self).origin() == old(self).origin(),
            final(self).size() == old(self).size(),
            final(self)@ == (ArchiveView {
                comment: truncated_comment(comment@),
                ..old(self)@
            }),
    {
        self.data.set_comment(comment.as_bytes());
    }

    /// Writes the local header of an entry with checksum and sizes at zero, and
    /// hands out the entry's record, in which they are zero too.
    fn begin_entry(&mut self, file_name: &str, options: &FileOptions) -> (entry: ArchiveFileEntry)
        requires
            old(self).wf(),
        ensures
            final(self).data == old(self).data,
            final(self).start == old(self).start,
            final(self).archive_size == old(self).archive_size,
            final(self).finalized == old(self).finalized,
            final(self).sink.wf(),
            entry@ == new_entry(
                file_name@,
                options@,
                options@.compressor,
                old(self).size() as u32,
                false,
            ),
            final(self).sink@ == overwrite(
                old(self).sink(),
                old(self).end(),
                local_file_header(entry@),
            ),
            final(self).sink.position() == old(self).end() + local_file_header(entry@).len(),
    {
        let (file_header, archive_file_entry) = build_file_header(
            file_name,
            options,
            options.get_compression_method(),
            #[verifier::truncate] (self.archive_size as u32),
            false,
        );
        self.sink.write_all(file_header.buffer());
        archive_file_entry
    }

    /// Completes an entry whose blank header and payload have been written:
    /// seeks back to the header, writes checksum and sizes into it, seeks forward
    /// to the end again, and keeps the record. No seek fails.
    fn finish_entry(
        &mut self,
        entry: ArchiveFileEntry,
        file_begin: u64,
        crc32: u32,
        uncompressed_size: usize,
        Ghost(before): Ghost<ZipArchiveNoStream>,
        Ghost(payload): Ghost<Seq<u8>>,
        Ghost(source): Ghost<Option<Seq<u8>>>,
    ) -> (result: Result<(), ArchiveError>)
        requires
            before.wf(),
            !before.is_finalized(),
            old(self).data == before.data,
            old(self).start == before.start,
            old(self).archive_size == before.archive_size,
            old(self).finalized == before.finalized,
            old(self).sink.wf(),
            is_new_entry(entry@, before.size() as u32, false),
            old(self).sink@ == overwrite(
                overwrite(before.sink(), before.end(), local_file_header(entry@)),
                before.end() + local_file_header(entry@).len(),
                payload,
            ),
            file_begin == before.end() + local_file_header(entry@).len(),
            old(self).sink.position() == file_begin + payload.len(),
            source matches Some(given) ==> describes(
                with_sizes(entry@, crc32, payload.len() as u32, uncompressed_size as u32),
                payload,
                given,
            ),
        ensures
            result is Ok,
            final(self).wf(),
            !final(self).is_finalized(),
            final(self).origin() == before.origin(),
            final(self).preamble() == before.preamble(),
            ({
                let complete = with_sizes(
                    entry@,
                    crc32,
                    payload.len() as u32,
                    uncompressed_size as u32,
                );
                &&& final(self)@ == before@.push(complete, payload, source)
                &&& final(self).written() == before.written() + entry_bytes(complete, payload)
                &&& final(self).sink() == overwrite(
                    before.sink(),
                    before.end(),
                    entry_bytes(complete, payload),
                )
            }),
    {
        let ghost blank = entry@;
        let end = self.sink.stream_position();
        let compressed_size = end - file_begin;

        let mut archive_file_entry = entry;
        archive_file_entry.crc32 = crc32;
        archive_file_entry.compressed_size = #[verifier::truncate] (compressed_size as u32);
        archive_file_entry.uncompressed_size = #[verifier::truncate] (uncompressed_size as u32);

        let file_data = build_size_fields(&archive_file_entry);
        let ghost complete = archive_file_entry@;
        proof {
            assert(with_sizes(complete, 0, 0, 0) == blank);
            lemma_entry_length(blank, payload);
            lemma_entry_length(complete, payload);
        }

        self.sink.seek(self.start + self.archive_size + FILE_HEADER_CRC_OFFSET as u64)?;
        self.sink.write_all(file_data.buffer());
        self.sink.seek(end)?;
        self.archive_size = end - self.start;

        proof {
            lemma_new_entry(blank, before.size() as u32, false);
            lemma_patched_header(before.sink(), before.end(), complete, payload);
            assert(entry_bytes(complete, payload) == local_file_header(complete) + payload);
            lemma_overwrite_extends(
                before.sink(),
                before.origin() as int,
                before.end(),
                entry_bytes(complete, payload),
            );
            lemma_push_entry(before@, complete, payload, source);
            lemma_push_headed(before@, complete, payload, source);
        }
        self.data.push(archive_file_entry, Ghost(payload), Ghost(source));
        Ok(())
    }

    /// Appends the file `file_name` with the payload `source`.
    ///
    /// The local header is first written with checksum and sizes at zero. Behind
    /// the encoded payload the writer seeks back to the header, writes the three
    /// fields, and seeks forward to the end again. An unknown compression method
    /// is refused before anything is written. When a codec fails, the blank
    /// header has been written and the archive cannot be used any further. No
    /// seek fails.
    pub fn append_file(
        &mut self,
        file_name: &str,
        source: &[u8],
        options: &FileOptions,
    ) -> (result: Result<(), ArchiveError>)
        requires
            old(self).wf(),
            !old(self).is_finalized(),
        ensures
            !final(self).is_finalized(),
            final(self).origin() == old(self).origin(),
            final(self).preamble() == old(self).preamble(),
            result is Ok ==> {
                let entry = written_entry(file_name@, options@, old(self).size(), source@, false);
                let payload = options@.compressor.spec_encode(source@, options@.compression_level);
                &&& final(self).wf()
                &&& final(self)@ == old(self)@.push(entry, payload, Some(source@))
                &&& final(self).written() == old(self).written() + entry_bytes(entry, payload)
                &&& final(self).sink() == overwrite(
                    old(self).sink(),
                    old(self).end(),
                    entry_bytes(entry, payload),
                )
            },
            result matches Err(error) ==> {
                &&& final(self)@ == old(self)@
                &&& final(self).size() == old(self).size()
                &&& !(options@.compressor is Store)
                &&& match options@.compressor {
                    Compressor::Unknown(code) => {
                        &&& error == ArchiveError::UnsuportedCompressionMethod(code)
                        &&& final(self).sink() == old(self).sink()
                        &&& final(self).wf()
                    },
                    _ => {
                        &&& error is IoError
                        &&& final(self).sink() == overwrite(
                            old(self).sink(),
                            old(self).end(),
                            blank_local_file_header(
                                written_entry(
                                    file_name@,
                                    options@,
                                    old(self).size(),
                                    source@,
                                    false,
                                ),
                            ),
                        )
                    },
                }
            },
            options@.compressor is Store ==> result is Ok,
            options@.compressor is Unknown ==> result is Err,
    {
        let compressor = options.get_compression_method();
        if let Compressor::Unknown(compression_method) = compressor {
            return Err(ArchiveError::UnsuportedCompressionMethod(compression_method));
        }
        let archive_file_entry = self.begin_entry(file_name, options);
        let file_begin = self.sink.stream_position();

        let stream = match compressor.encode(source, options.get_compression_level()) {
            Ok(stream) => stream,
            Err(error) => {
                proof {
                    lemma_overwrite_extends(
                        old(self).sink(),
                        old(self).origin() as int,
                        old(self).end(),
                        local_file_header(archive_file_entry@),
                    );
                }
                return Err(error);
            },
        };
        let crc32 = crc32fast::hash(source);
        self.sink.write_all(stream.as_slice());

        self.finish_entry(
            archive_file_entry,
            file_begin,
            crc32,
            source.len(),
            Ghost(*old(self)),
            Ghost(stream@),
            Ghost(Some(source@)),
        )
    }

    /// Appends the file `file_name`, whose payload of `uncompressed_size` bytes
    /// with the checksum `crc32` has been encoded to `stream` already.
    ///
    /// The local header is first written with checksum and sizes at zero; behind
    /// `stream` the writer seeks back to the header, writes the three fields, and
    /// seeks forward to the end again. The numbers and the stream are taken as
    /// they are given. No seek fails.
    pub fn append_encoded(
        &mut self,
        file_name: &str,
        options: &FileOptions,
        crc32: u32,
        uncompressed_size: usize,
        stream: &[u8],
    ) -> (result: Result<(), ArchiveError>)
        requires
            old(self).wf(),
            !old(self).is_finalized(),
        ensures
            result is Ok,
            final(self).wf(),
            !final(self).is_finalized(),
            final(self).origin() == old(self).origin(),
            final(self).preamble() == old(self).preamble(),
            ({
                let entry = encoded_entry(
                    file_name@,
                    options@,
                    old(self).size(),
                    crc32,
                    uncompressed_size as nat,
                    stream@,
                    false,
                );
                &&& final(self)@ == old(self)@.push(entry, stream@, None)
                &&& final(self).written() == old(self).written() + entry_bytes(entry, stream@)
                &&& final(self).sink() == overwrite(
                    old(self).sink(),
                    old(self).end(),
                    entry_bytes(entry, stream@),
                )
            }),
    {
        let archive_file_entry = self.begin_entry(file_name, options);
        let file_begin = self.sink.stream_position();
        self.sink.write_all(stream);
        self.finish_entry(
            archive_file_entry,
            file_begin,
            crc32,
            uncompressed_size,
            Ghost(*old(self)),
            Ghost(stream@),
            Ghost(None),
        )
    }

    /// Writes the central directory and the end record behind the last entry.
    /// Nothing can be appended afterwards.
    pub fn finalize(&mut self) -> (result: Result<(), ArchiveError>)
        requires
            old(self).wf(),
            !old(self).is_finalized(),
        ensures
            result is Ok,
            final(self).wf(),
            final(self).is_finalized(),
            final(self)@ == old(self)@,
            final(self).origin() == old(self).origin(),
            final(self).preamble() == old(self).preamble(),
            final(self).written() == old(self).written() + archive_trailer(
                old(self)@.entries,
                old(self).size(),
                old(self)@.comment,
            ),
            final(self).sink() == overwrite(
                old(self).sink(),
                old(self).end(),
                archive_trailer(old(self)@.entries, old(self).size(), old(self)@.comment),
            ),
    {
        let central_directory_begin = self.sink.stream_position();
        let central_directory_offset = #[verifier::truncate] ((central_directory_begin
            - self.start) as u32);

        let mut central_directory_header = ArchiveDescriptor::new(
            CENTRAL_DIRECTORY_ENTRY_BASE_SIZE + 200,
        );

        let count = self.data.entry_count();
        let mut index: usize = 0;
        while index < count
            invariant
                index <= count,
                count == self@.entries.len(),
                self.data == old(self).data,
                self.start == old(self).start,
                self.archive_size == old(self).archive_size,
                self.finalized == old(self).finalized,
                old(self).end() <= old(self).sink().len(),
                central_directory_begin == old(self).end(),
                self.sink.wf(),
                self.sink.position() == central_directory_begin + central_directory(
                    self@.entries.take(index as int),
                ).len(),
                central_directory_header@.len() == 0,
                self.sink@ == overwrite(
                    old(self).sink(),
                    old(self).end(),
                    central_directory(self@.entries.take(index as int)),
                ),
            decreases count - index,
        {
            build_central_directory_file_header(
                &mut central_directory_header,
                self.data.entry(index),
            );
            self.sink.write_all(central_directory_header.buffer());
            proof {
                lemma_overwrite_twice(
                    old(self).sink(),
                    old(self).end(),
                    central_directory(self@.entries.take(index as int)),
                    central_directory_header@,
                );
                assert(self@.entries.take(index + 1).drop_last() =~= self@.entries.take(
                    index as int,
                ));
            }
            central_directory_header.clear();
            index += 1;
        }
        assert(self@.entries.take(count as int) =~= self@.entries);

        let current_archive_size = self.sink.stream_position();
        let central_directory_size = #[verifier::truncate] ((current_archive_size
            - central_directory_begin) as u32);
        let end_of_central_directory = build_central_directory_end(
            &*self,
            central_directory_offset,
            central_directory_size,
        );
        self.sink.write_all(end_of_central_directory.buffer());
        self.archive_size = self.sink.stream_position() - self.start;
        self.finalized = true;
        proof {
            let trailer = archive_trailer(old(self)@.entries, old(self).size(), old(self)@.comment);
            lemma_overwrite_twice(
                old(self).sink(),
                old(self).end(),
                central_directory(old(self)@.entries),
                end_of_central_directory@,
            );
            assert(self.sink@ == overwrite(old(self).sink(), old(self).end(), trailer));
            lemma_overwrite_extends(
                old(self).sink(),
                old(self).origin() as int,
                old(self).end(),
                trailer,
            );
        }
        Ok(())
    }
}

impl ZipArchiveCommon for ZipArchiveNoStream {
    open spec fn archive_size(&self) -> nat {
        self.size()
    }

    closed spec fn data(&self) -> SubZipArchiveData {
        self.data
    }

    open spec fn valid(&self) -> bool {
        self.wf()
    }

    fn get_archive_size(&self) -> (size: usize) {
        proof {
            self.sink.lemma_length_fits();
        }
        self.archive_size as usize
    }

    fn get_data(&self) -> (data: &SubZipArchiveData)
        ensures
            data@ == self@,
    {
        &self.data
    }
}

} // verus!

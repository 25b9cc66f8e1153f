//! The compression methods and what they make of a payload.

use vstd::prelude::*;
use crate::async_write_wrapper::AsyncWriteWrapper;
use crate::codec::bzip2_encode;
use crate::codec::bzip2_level;
use crate::codec::bzip2_stream;
use crate::codec::clamp_level;
use crate::codec::crc32_checksum;
use crate::codec::deflate_encode;
use crate::codec::deflate_level;
use crate::codec::deflate_stream;
use crate::codec::lzma_encode;
use crate::codec::lzma_level;
use crate::codec::lzma_stream;
use crate::codec::xz_encode;
use crate::codec::xz_stream;
use crate::codec::zstd_encode;
use crate::codec::zstd_frame;
use crate::codec::zstd_level;
use crate::codec::ZSTD_MAX_LEVEL;
use crate::codec::ZSTD_MIN_LEVEL;
use crate::error::ArchiveError;

verus! {

pub const STORE: u16 = 0;

pub const DEFLATE: u16 = 8;

pub const BZIP2: u16 = 12;

pub const LZMA: u16 = 14;

pub const ZSTD: u16 = 93;

pub const XZ: u16 = 95;

/// How the payload of an entry is encoded.
#[derive(Debug, Clone, Copy, PartialEq, Eq, Structural)]
pub enum Compressor {
    Store(),
    Deflate(),
    BZip2(),
    Lzma(),
    Zstd(),
    Xz(),
    /// A method code that was met elsewhere and that this library cannot write.
    Unknown(u16),
}

impl Compressor {
    /// The method code that the ZIP format gives this compressor.
    pub open spec fn spec_compression_method(&self) -> u16 {
        match self {
            Compressor::Store() => STORE,
            Compressor::Deflate() => DEFLATE,
            Compressor::BZip2() => BZIP2,
            Compressor::Lzma() => LZMA,
            Compressor::Zstd() => ZSTD,
            Compressor::Xz() => XZ,
            Compressor::Unknown(code) => *code,
        }
    }

    /// The lowest version of the format, times ten, that a reader needs.
    pub open spec fn spec_version_needed(&self) -> u16 {
        match self {
            Compressor::BZip2() => 46,
            _ => 20,
        }
    }

    /// The compressor that a method code stands for.
    pub open spec fn spec_from_compression_method(code: u16) -> Compressor {
        if code == STORE {
            Compressor::Store()
        } else if code == DEFLATE {
            Compressor::Deflate()
        } else if code == BZIP2 {
            Compressor::BZip2()
        } else if code == LZMA {
            Compressor::Lzma()
        } else if code == ZSTD {
            Compressor::Zstd()
        } else if code == XZ {
            Compressor::Xz()
        } else {
            Compressor::Unknown(code)
        }
    }

    /// The name of the compressor in lower case.
    pub open spec fn spec_label(&self) -> Seq<char> {
        match self {
            Compressor::Store() => "store"@,
            Compressor::Deflate() => "deflate"@,
            Compressor::BZip2() => "bzip2"@,
            Compressor::Lzma() => "lzma"@,
            Compressor::Zstd() => "zstd"@,
            Compressor::Xz() => "xz"@,
            Compressor::Unknown(_) => "unknown"@,
        }
    }

    /// The bytes that stand in the archive for the payload `data`.
    pub open spec fn spec_encode(&self, data: Seq<u8>, hint: Option<i32>) -> Seq<u8> {
        match self {
            Compressor::Store() => data,
            Compressor::Deflate() => deflate_stream(data, deflate_level(hint)),
            Compressor::BZip2() => bzip2_stream(data, bzip2_level(hint)),
            Compressor::Lzma() => lzma_stream(data, lzma_level(hint)),
            Compressor::Zstd() => zstd_frame(data, zstd_level(hint)),
            Compressor::Xz() => xz_stream(data, lzma_level(hint)),
            Compressor::Unknown(_) => Seq::empty(),
        }
    }

    pub fn compression_method(&self) -> (code: u16)
        ensures
            code == self.spec_compression_method(),
    {
        match self {
            Compressor::Store() => STORE,
            Compressor::Deflate() => DEFLATE,
            Compressor::BZip2() => BZIP2,
            Compressor::Lzma() => LZMA,
            Compressor::Zstd() => ZSTD,
            Compressor::Xz() => XZ,
            Compressor::Unknown(compression_method) => *compression_method,
        }
    }

    pub fn version_needed(&self) -> (version: u16)
        ensures
            version == self.spec_version_needed(),
    {
        match self {
            Compressor::BZip2() => 46,
            _ => 20,
        }
    }

    pub fn from_compression_method(compression_method: u16) -> (compressor: Compressor)
        ensures
            compressor == Self::spec_from_compression_method(compression_method),
            compressor.spec_compression_method() == compression_method,
    {
        if compression_method == STORE {
            Compressor::Store()
        } else if compression_method == DEFLATE {
            Compressor::Deflate()
        } else if compression_method == BZIP2 {
            Compressor::BZip2()
        } else if compression_method == LZMA {
            Compressor::Lzma()
        } else if compression_method == ZSTD {
            Compressor::Zstd()
        } else if compression_method == XZ {
            Compressor::Xz()
        } else {
            Compressor::Unknown(compression_method)
        }
    }

    pub fn compression_method_label(&self) -> (label: &'static str)
        ensures
            label@ == self.spec_label(),
    {
        match self {
            Compressor::Store() => "store",
            Compressor::Deflate() => "deflate",
            Compressor::BZip2() => "bzip2",
            Compressor::Lzma() => "lzma",
            Compressor::Zstd() => "zstd",
            Compressor::Xz() => "xz",
            Compressor::Unknown(_) => "unknown",
        }
    }

    /// The label as an owned string.
    pub fn to_string(&self) -> (label: String)
        ensures
            label@ == self.spec_label(),
    {
        self.compression_method_label().to_owned()
    }

    pub fn is_unknown(&self) -> (unknown: bool)
        ensures
            unknown == (self is Unknown),
    {
        matches!(self, Compressor::Unknown(_))
    }

    /// Encodes `source` as this compressor does.
    ///
    /// `Store` hands the payload back unchanged and never fails; `Unknown` always
    /// fails, with its method code. For the others a codec decides: when it
    /// succeeds, the result is the stream that `spec_encode` names.
    pub fn encode(&self, source: &[u8], level: Option<i32>) -> (result: Result<
        Vec<u8>,
        ArchiveError,
    >)
        ensures
            result matches Ok(stream) ==> stream@ == self.spec_encode(source@, level),
            result matches Err(error) ==> {
                &&& !(self is Store)
                &&& (self is Unknown) == (error is UnsuportedCompressionMethod)
                &&& self matches Compressor::Unknown(code) ==> error
                    == ArchiveError::UnsuportedCompressionMethod(*code)
                &&& !(self is Unknown) ==> error is IoError
            },
            self is Store ==> result is Ok,
            self is Unknown ==> result is Err,
    {
        let encoded = match self {
            Compressor::Store() => {
                return Ok(vstd::slice::slice_to_vec(source));
            },
            Compressor::Deflate() => deflate_encode(source, clamp_level(level, 6, 0, 9) as u32),
            Compressor::BZip2() => bzip2_encode(source, clamp_level(level, 6, 1, 9) as u32),
            Compressor::Lzma() => lzma_encode(source, clamp_level(level, 5, 0, 9) as u32),
            Compressor::Zstd() => zstd_encode(
                source,
                clamp_level(level, 3, ZSTD_MIN_LEVEL, ZSTD_MAX_LEVEL),
            ),
            Compressor::Xz() => xz_encode(source, clamp_level(level, 5, 0, 9) as u32),
            Compressor::Unknown(compression_method) => {
                return Err(ArchiveError::UnsuportedCompressionMethod(*compression_method));
            },
        };
        Self::encoded_or_error(encoded)
    }

    /// Turns what a codec returned into the library's result: the stream as it
    /// is, or the codec's error as an `IoError`.
    pub fn encoded_or_error(encoded: Result<Vec<u8>, std::io::Error>) -> (result: Result<
        Vec<u8>,
        ArchiveError,
    >)
        ensures
            encoded matches Ok(stream) ==> result == Ok::<Vec<u8>, ArchiveError>(stream),
            encoded matches Err(error) ==> result == Err::<Vec<u8>, ArchiveError>(
                ArchiveError::IoError(error),
            ),
    {
        match encoded {
            Ok(stream) => Ok(stream),
            Err(error) => Err(ArchiveError::IoError(error)),
        }
    }

    /// Writes the payload `source` to `writer` as this compressor encodes it, and
    /// returns the number of payload bytes together with their CRC-32.
    ///
    /// On failure nothing is written. How many bytes the payload takes in the sink
    /// is seen from the sink's count before and after.
    pub fn compress(
        &self,
        writer: &mut AsyncWriteWrapper,
        source: &[u8],
        level: Option<i32>,
    ) -> (result: Result<(usize, u32), ArchiveError>)
        requires
            old(writer).wf(),
        ensures
            final(writer).wf(),
            final(writer).initial() == old(writer).initial(),
            result matches Ok((count, checksum)) ==> {
                &&& count == source@.len()
                &&& checksum == crc32_checksum(source@)
                &&& final(writer)@ == old(writer)@ + self.spec_encode(source@, level)
            },
            result matches Err(error) ==> {
                &&& final(writer)@ == old(writer)@
                &&& !(self is Store)
                &&& (self is Unknown) == (error is UnsuportedCompressionMethod)
                &&& self matches Compressor::Unknown(code) ==> error
                    == ArchiveError::UnsuportedCompressionMethod(*code)
                &&& !(self is Unknown) ==> error is IoError
            },
            self is Store ==> result is Ok,
            self is Unknown ==> result is Err,
    {
        let stream = self.encode(source, level)?;
        let checksum = crc32fast::hash(source);
        writer.write_all(stream.as_slice());
        Ok((source.len(), checksum))
    }
}

} // verus!

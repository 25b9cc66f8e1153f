//! The codecs and the checksum, which outside crates compute.
//!
//! What a codec returns is taken on trust and only given a name, so that the
//! rest of the library can say where those bytes go. Nothing here is proved of
//! the codecs themselves.

use vstd::prelude::*;

verus! {

/// Lowest level that Zstandard accepts.
pub const ZSTD_MIN_LEVEL: i32 = -131072;

/// Highest level that Zstandard accepts.
pub const ZSTD_MAX_LEVEL: i32 = 22;

/// The CRC-32 checksum (IEEE) of `data`, as `crc32fast` computes it.
pub uninterp spec fn crc32_checksum(data: Seq<u8>) -> u32;

/// The raw DEFLATE stream that `flate2` makes of `data` at `level`.
pub uninterp spec fn deflate_stream(data: Seq<u8>, level: u32) -> Seq<u8>;

/// The bzip2 stream that `bzip2` makes of `data` at `level`.
pub uninterp spec fn bzip2_stream(data: Seq<u8>, level: u32) -> Seq<u8>;

/// The legacy `.lzma` stream that `liblzma` makes of `data` at preset `level`.
pub uninterp spec fn lzma_stream(data: Seq<u8>, level: u32) -> Seq<u8>;

/// The `.xz` stream that `liblzma` makes of `data` at preset `level`.
pub uninterp spec fn xz_stream(data: Seq<u8>, level: u32) -> Seq<u8>;

/// The Zstandard frame that `zstd` makes of `data` at `level`.
pub uninterp spec fn zstd_frame(data: Seq<u8>, level: i32) -> Seq<u8>;

/// `crc32fast::hash` returns the CRC-32 checksum of the slice it is given. The
/// contract only gives that checksum its name.
pub assume_specification[ crc32fast::hash ](buf: &[u8]) -> (checksum: u32)
    ensures
        checksum == crc32_checksum(buf@),
;

/// Runs `data` through a `flate2::write::DeflateEncoder` over an empty vector and
/// finishes it. When the encoder reports no error, what comes back is the stream
/// named `deflate_stream`. `flate2` asserts that the level is at most 10.
#[verifier::external_body]
pub(crate) fn deflate_encode(data: &[u8], level: u32) -> (result: Result<Vec<u8>, std::io::Error>)
    requires
        level <= 9,
    ensures
        result matches Ok(stream) ==> stream@ == deflate_stream(data@, level),
{
    let level = flate2::Compression::new(level);
    let mut encoder = flate2::write::DeflateEncoder::new(Vec::new(), level);
    std::io::Write::write_all(&mut encoder, data)?;
    encoder.finish()
}

/// Runs `data` through a `bzip2::write::BzEncoder` over an empty vector and
/// finishes it. When the encoder reports no error, what comes back is the stream
/// named `bzip2_stream`. `bzip2::Compression::new` panics outside of 1 to 9.
#[verifier::external_body]
pub(crate) fn bzip2_encode(data: &[u8], level: u32) -> (result: Result<Vec<u8>, std::io::Error>)
    requires
        1 <= level <= 9,
    ensures
        result matches Ok(stream) ==> stream@ == bzip2_stream(data@, level),
{
    let level = bzip2::Compression::new(level);
    let mut encoder = bzip2::write::BzEncoder::new(Vec::new(), level);
    std::io::Write::write_all(&mut encoder, data)?;
    encoder.finish()
}

/// Runs `data` through a `liblzma::write::XzEncoder` whose stream is
/// `liblzma::stream::Stream::new_lzma_encoder` with the preset `level`, over an
/// empty vector, and finishes it. When nothing reports an error, what comes back
/// is the stream named `lzma_stream`.
#[verifier::external_body]
pub(crate) fn lzma_encode(data: &[u8], level: u32) -> (result: Result<Vec<u8>, std::io::Error>)
    requires
        level <= 9,
    ensures
        result matches Ok(stream) ==> stream@ == lzma_stream(data@, level),
{
    let options = liblzma::stream::LzmaOptions::new_preset(level)?;
    let stream = liblzma::stream::Stream::new_lzma_encoder(&options)?;
    let mut encoder = liblzma::write::XzEncoder::new_stream(Vec::new(), stream);
    std::io::Write::write_all(&mut encoder, data)?;
    encoder.finish()
}

/// Calls `liblzma::encode_all` on `data`. When it reports no error, what comes
/// back is the stream named `xz_stream`. It unwraps the encoder it makes, which
/// fails for a preset above 9.
#[verifier::external_body]
pub(crate) fn xz_encode(data: &[u8], level: u32) -> (result: Result<Vec<u8>, std::io::Error>)
    requires
        level <= 9,
    ensures
        result matches Ok(stream) ==> stream@ == xz_stream(data@, level),
{
    liblzma::encode_all(data, level)
}

/// Calls `zstd::stream::encode_all` on `data`. When it reports no error, what
/// comes back is the frame named `zstd_frame`.
#[verifier::external_body]
pub(crate) fn zstd_encode(data: &[u8], level: i32) -> (result: Result<Vec<u8>, std::io::Error>)
    requires
        ZSTD_MIN_LEVEL <= level <= ZSTD_MAX_LEVEL,
    ensures
        result matches Ok(frame) ==> frame@ == zstd_frame(data@, level),
{
    zstd::stream::encode_all(data, level)
}

/// The level at which DEFLATE runs for a hint: 6 without one, else the hint
/// brought into 0 to 9.
pub open spec fn deflate_level(hint: Option<i32>) -> u32 {
    match hint {
        None => 6,
        Some(level) => if level < 0 { 0 } else if level > 9 { 9 } else { level as u32 },
    }
}

/// The level at which bzip2 runs for a hint: 6 without one, else the hint
/// brought into 1 to 9.
pub open spec fn bzip2_level(hint: Option<i32>) -> u32 {
    match hint {
        None => 6,
        Some(level) => if level < 1 { 1 } else if level > 9 { 9 } else { level as u32 },
    }
}

/// The preset at which LZMA and XZ run for a hint: 5 without one, else the hint
/// brought into 0 to 9.
pub open spec fn lzma_level(hint: Option<i32>) -> u32 {
    match hint {
        None => 5,
        Some(level) => if level < 0 { 0 } else if level > 9 { 9 } else { level as u32 },
    }
}

/// The level at which Zstandard runs for a hint: 3 without one, else the hint
/// brought into the range that Zstandard accepts.
pub open spec fn zstd_level(hint: Option<i32>) -> i32 {
    match hint {
        None => 3,
        Some(level) => if level < ZSTD_MIN_LEVEL {
            ZSTD_MIN_LEVEL
        } else if level > ZSTD_MAX_LEVEL {
            ZSTD_MAX_LEVEL
        } else {
            level
        },
    }
}

/// The level that a codec runs at for a hint: `default` without one, else the
/// hint brought into `lowest` to `highest`.
pub(crate) fn clamp_level(hint: Option<i32>, default: i32, lowest: i32, highest: i32) -> (level:
    i32)
    requires
        lowest <= default <= highest,
    ensures
        lowest <= level <= highest,
        hint is None ==> level == default,
        hint matches Some(wanted) ==> level == if wanted < lowest {
            lowest
        } else if wanted > highest {
            highest
        } else {
            wanted
        },
{
    match hint {
        None => default,
        Some(wanted) => if wanted < lowest {
            lowest
        } else if wanted > highest {
            highest
        } else {
            wanted
        },
    }
}

} // verus!

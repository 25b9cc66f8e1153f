use std::io::Read;

use zipstream::async_write_wrapper::AsyncWriteWrapper;
use zipstream::compression::Compressor;
use zipstream::error::ArchiveError;

const TEXT: &[u8] = b"to be, or not to be, that is the question: to be, or not to be, that is it";

fn known() -> Vec<Compressor> {
    vec![
        Compressor::Store(),
        Compressor::Deflate(),
        Compressor::BZip2(),
        Compressor::Lzma(),
        Compressor::Zstd(),
        Compressor::Xz(),
    ]
}

fn inflate(stream: &[u8]) -> Vec<u8> {
    let mut out = Vec::new();
    flate2::read::DeflateDecoder::new(stream)
        .read_to_end(&mut out)
        .unwrap();
    out
}

fn bunzip(stream: &[u8]) -> Vec<u8> {
    let mut out = Vec::new();
    bzip2::read::BzDecoder::new(stream)
        .read_to_end(&mut out)
        .unwrap();
    out
}

fn unlzma(stream: &[u8]) -> Vec<u8> {
    let decoder = liblzma::stream::Stream::new_lzma_decoder(u64::MAX).unwrap();
    let mut out = Vec::new();
    liblzma::read::XzDecoder::new_stream(stream, decoder)
        .read_to_end(&mut out)
        .unwrap();
    out
}

fn decode(compressor: Compressor, stream: &[u8]) -> Vec<u8> {
    match compressor {
        Compressor::Store() => stream.to_vec(),
        Compressor::Deflate() => inflate(stream),
        Compressor::BZip2() => bunzip(stream),
        Compressor::Lzma() => unlzma(stream),
        Compressor::Zstd() => zstd::stream::decode_all(stream).unwrap(),
        Compressor::Xz() => liblzma::decode_all(stream).unwrap(),
        Compressor::Unknown(_) => unreachable!(),
    }
}

#[test]
fn method_codes() {
    assert_eq!(Compressor::Store().compression_method(), 0);
    assert_eq!(Compressor::Deflate().compression_method(), 8);
    assert_eq!(Compressor::BZip2().compression_method(), 12);
    assert_eq!(Compressor::Lzma().compression_method(), 14);
    assert_eq!(Compressor::Zstd().compression_method(), 93);
    assert_eq!(Compressor::Xz().compression_method(), 95);
    assert_eq!(Compressor::Unknown(4711).compression_method(), 4711);
}

#[test]
fn versions_needed() {
    assert_eq!(Compressor::BZip2().version_needed(), 46);
    for compressor in [
        Compressor::Store(),
        Compressor::Deflate(),
        Compressor::Lzma(),
        Compressor::Zstd(),
        Compressor::Xz(),
        Compressor::Unknown(1),
    ] {
        assert_eq!(compressor.version_needed(), 20);
    }
}

#[test]
fn labels() {
    assert_eq!(Compressor::Store().compression_method_label(), "store");
    assert_eq!(Compressor::Deflate().compression_method_label(), "deflate");
    assert_eq!(Compressor::BZip2().compression_method_label(), "bzip2");
    assert_eq!(Compressor::Lzma().compression_method_label(), "lzma");
    assert_eq!(Compressor::Zstd().compression_method_label(), "zstd");
    assert_eq!(Compressor::Xz().compression_method_label(), "xz");
    assert_eq!(Compressor::Unknown(7).compression_method_label(), "unknown");
    assert_eq!(Compressor::Zstd().to_string(), "zstd");
}

#[test]
fn from_method_code() {
    assert_eq!(Compressor::from_compression_method(0), Compressor::Store());
    assert_eq!(Compressor::from_compression_method(8), Compressor::Deflate());
    assert_eq!(Compressor::from_compression_method(12), Compressor::BZip2());
    assert_eq!(Compressor::from_compression_method(14), Compressor::Lzma());
    assert_eq!(Compressor::from_compression_method(93), Compressor::Zstd());
    assert_eq!(Compressor::from_compression_method(95), Compressor::Xz());
    assert_eq!(Compressor::from_compression_method(9), Compressor::Unknown(9));
    assert_eq!(Compressor::from_compression_method(u16::MAX), Compressor::Unknown(u16::MAX));
}

#[test]
fn every_code_is_kept() {
    for code in 0..=u16::MAX {
        assert_eq!(Compressor::from_compression_method(code).compression_method(), code);
    }
}

#[test]
fn known_compressors_come_back_from_their_code() {
    for compressor in known() {
        assert!(!compressor.is_unknown());
        assert_eq!(Compressor::from_compression_method(compressor.compression_method()), compressor);
    }
    assert!(Compressor::Unknown(0).is_unknown());
}

#[test]
fn store_passes_the_payload_through() {
    assert_eq!(Compressor::Store().encode(TEXT, None).unwrap(), TEXT);
    assert_eq!(Compressor::Store().encode(TEXT, Some(9)).unwrap(), TEXT);
    assert_eq!(Compressor::Store().encode(b"", None).unwrap(), b"");
}

#[test]
fn unknown_refuses_to_encode() {
    match Compressor::Unknown(77).encode(TEXT, None) {
        Err(ArchiveError::UnsuportedCompressionMethod(code)) => assert_eq!(code, 77),
        other => panic!("unexpected result {:?}", other),
    }
}

#[test]
fn deflate_stream_inflates_to_the_payload() {
    let stream = Compressor::Deflate().encode(TEXT, None).unwrap();
    assert_ne!(stream.as_slice(), TEXT);
    assert!(stream.len() < TEXT.len());
    assert_eq!(inflate(&stream), TEXT);
}

#[test]
fn bzip2_stream_decodes_to_the_payload() {
    let stream = Compressor::BZip2().encode(TEXT, None).unwrap();
    assert_ne!(stream.as_slice(), TEXT);
    assert_eq!(&stream[..3], b"BZh");
    assert_eq!(bunzip(&stream), TEXT);
}

#[test]
fn lzma_stream_decodes_to_the_payload() {
    let stream = Compressor::Lzma().encode(TEXT, None).unwrap();
    assert_ne!(stream.as_slice(), TEXT);
    assert_eq!(unlzma(&stream), TEXT);
}

#[test]
fn xz_stream_decodes_to_the_payload() {
    let stream = Compressor::Xz().encode(TEXT, None).unwrap();
    assert_ne!(stream.as_slice(), TEXT);
    assert_eq!(&stream[..6], &[0xfd, b'7', b'z', b'X', b'Z', 0x00]);
    assert_eq!(liblzma::decode_all(stream.as_slice()).unwrap(), TEXT);
}

#[test]
fn zstd_frame_decodes_to_the_payload() {
    let frame = Compressor::Zstd().encode(TEXT, None).unwrap();
    assert_ne!(frame.as_slice(), TEXT);
    assert_eq!(&frame[..4], &[0x28, 0xb5, 0x2f, 0xfd]);
    assert_eq!(zstd::stream::decode_all(frame.as_slice()).unwrap(), TEXT);
}

#[test]
fn every_level_hint_gives_a_stream_that_decodes() {
    let hints = [
        None,
        Some(i32::MIN),
        Some(-200_000),
        Some(-7),
        Some(-1),
        Some(0),
        Some(1),
        Some(5),
        Some(9),
        Some(10),
        Some(22),
        Some(23),
        Some(i32::MAX),
    ];
    for compressor in known() {
        for hint in hints {
            let stream = compressor.encode(TEXT, hint).unwrap();
            assert_eq!(decode(compressor, &stream), TEXT, "{:?} at {:?}", compressor, hint);
        }
    }
}

#[test]
fn a_hint_outside_of_the_range_counts_as_its_nearest_bound() {
    let repetitive = TEXT.repeat(200);
    for compressor in [Compressor::Deflate(), Compressor::BZip2(), Compressor::Lzma(), Compressor::Xz()] {
        assert_eq!(
            compressor.encode(&repetitive, Some(1000)).unwrap(),
            compressor.encode(&repetitive, Some(9)).unwrap()
        );
    }
    assert_eq!(
        Compressor::Deflate().encode(&repetitive, Some(-5)).unwrap(),
        Compressor::Deflate().encode(&repetitive, Some(0)).unwrap()
    );
    assert_eq!(
        Compressor::BZip2().encode(&repetitive, Some(0)).unwrap(),
        Compressor::BZip2().encode(&repetitive, Some(1)).unwrap()
    );
    assert_eq!(
        Compressor::Zstd().encode(&repetitive, Some(100)).unwrap(),
        Compressor::Zstd().encode(&repetitive, Some(22)).unwrap()
    );
}

#[test]
fn no_hint_is_the_default_level() {
    let repetitive = TEXT.repeat(200);
    assert_eq!(
        Compressor::Deflate().encode(&repetitive, None).unwrap(),
        Compressor::Deflate().encode(&repetitive, Some(6)).unwrap()
    );
    assert_eq!(
        Compressor::BZip2().encode(&repetitive, None).unwrap(),
        Compressor::BZip2().encode(&repetitive, Some(6)).unwrap()
    );
    assert_eq!(
        Compressor::Xz().encode(&repetitive, None).unwrap(),
        Compressor::Xz().encode(&repetitive, Some(5)).unwrap()
    );
    assert_eq!(
        Compressor::Lzma().encode(&repetitive, None).unwrap(),
        Compressor::Lzma().encode(&repetitive, Some(5)).unwrap()
    );
    assert_eq!(
        Compressor::Zstd().encode(&repetitive, None).unwrap(),
        Compressor::Zstd().encode(&repetitive, Some(3)).unwrap()
    );
}

#[test]
fn encoding_is_repeatable() {
    for compressor in known() {
        assert_eq!(
            compressor.encode(TEXT, None).unwrap(),
            compressor.encode(TEXT, None).unwrap()
        );
    }
}

#[test]
fn empty_payloads_encode_and_decode() {
    for compressor in known() {
        let stream = compressor.encode(b"", None).unwrap();
        assert_eq!(decode(compressor, &stream), b"");
    }
}

#[test]
fn compress_counts_hashes_and_writes() {
    for compressor in known() {
        let mut sink = AsyncWriteWrapper::new(Vec::new());
        let (count, checksum) = compressor.compress(&mut sink, b"hello\n", None).unwrap();
        assert_eq!(count, 6);
        assert_eq!(checksum, 0x363a3020);
        let expected = compressor.encode(b"hello\n", None).unwrap();
        assert_eq!(sink.get_written_bytes_count(), expected.len());
        assert_eq!(sink.retrieve_writer(), expected);
    }
}

#[test]
fn checksum_is_crc32_of_the_payload_before_encoding() {
    let cases: [(&[u8], u32); 4] = [
        (b"", 0),
        (b"123456789", 0xcbf43926),
        (b"world\n", 0xdd3861a8),
        (b"example", 0x6eec9b9f),
    ];
    for (payload, expected) in cases {
        for compressor in known() {
            let mut sink = AsyncWriteWrapper::new(Vec::new());
            let (count, checksum) = compressor.compress(&mut sink, payload, Some(1)).unwrap();
            assert_eq!(count, payload.len());
            assert_eq!(checksum, expected);
        }
    }
}

#[test]
fn compress_appends_behind_what_was_written() {
    let mut sink = AsyncWriteWrapper::new(vec![1, 2, 3]);
    sink.write_all(b"head");
    let (count, _) = Compressor::Store().compress(&mut sink, b"body", None).unwrap();
    assert_eq!(count, 4);
    assert_eq!(sink.get_written_bytes_count(), 8);
    assert_eq!(sink.get_ref(), b"\x01\x02\x03headbody");
}

#[test]
fn compress_with_unknown_method_writes_nothing() {
    let mut sink = AsyncWriteWrapper::new(Vec::new());
    sink.write_all(b"head");
    let result = Compressor::Unknown(3).compress(&mut sink, b"body", None);
    assert!(matches!(result, Err(ArchiveError::UnsuportedCompressionMethod(3))));
    assert_eq!(sink.get_written_bytes_count(), 4);
    assert_eq!(sink.retrieve_writer(), b"head");
}

#[test]
fn a_failure_of_a_codec_becomes_an_io_error() {
    let failure = std::io::Error::new(std::io::ErrorKind::InvalidData, "corrupt");
    match Compressor::encoded_or_error(Err(failure)) {
        Err(ArchiveError::IoError(error)) => {
            assert_eq!(error.kind(), std::io::ErrorKind::InvalidData);
            assert_eq!(error.to_string(), "corrupt");
        }
        other => panic!("unexpected result {:?}", other),
    }
    assert_eq!(Compressor::encoded_or_error(Ok(vec![1, 2, 3])).unwrap(), vec![1, 2, 3]);
}

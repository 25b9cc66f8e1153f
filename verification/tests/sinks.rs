use zipstream::async_write_wrapper::AsyncWriteWrapper;
use zipstream::error::ArchiveError;
use zipstream::memory_sink::MemorySink;

#[test]
fn counting_sink_counts_what_passes_through() {
    let mut sink = AsyncWriteWrapper::new(Vec::new());
    assert_eq!(sink.get_written_bytes_count(), 0);
    sink.write_all(b"abc");
    assert_eq!(sink.get_written_bytes_count(), 3);
    sink.write_all(b"");
    assert_eq!(sink.get_written_bytes_count(), 3);
    sink.write_all(&[0u8; 5000]);
    assert_eq!(sink.get_written_bytes_count(), 5003);
    let bytes = sink.retrieve_writer();
    assert_eq!(bytes.len(), 5003);
    assert_eq!(&bytes[..3], b"abc");
}

#[test]
fn counting_sink_does_not_count_what_it_was_given() {
    let mut sink = AsyncWriteWrapper::new(b"before".to_vec());
    assert_eq!(sink.get_written_bytes_count(), 0);
    sink.write_all(b"-after");
    assert_eq!(sink.get_written_bytes_count(), 6);
    assert_eq!(sink.get_ref(), b"before-after");
    assert_eq!(sink.retrieve_writer(), b"before-after");
}

#[test]
fn memory_sink_appends_at_its_end() {
    let mut sink = MemorySink::new();
    assert_eq!(sink.stream_position(), 0);
    sink.write_all(b"abc");
    sink.write_all(b"def");
    assert_eq!(sink.stream_position(), 6);
    assert_eq!(sink.get_ref(), b"abcdef");
}

#[test]
fn memory_sink_overwrites_in_the_middle() {
    let mut sink = MemorySink::new();
    sink.write_all(b"0123456789");
    assert_eq!(sink.seek(3).unwrap(), 3);
    assert_eq!(sink.stream_position(), 3);
    sink.write_all(b"abc");
    assert_eq!(sink.stream_position(), 6);
    assert_eq!(sink.get_ref(), b"012abc6789");
    assert_eq!(sink.seek(10).unwrap(), 10);
    sink.write_all(b"!");
    assert_eq!(sink.into_inner(), b"012abc6789!");
}

#[test]
fn memory_sink_grows_when_a_write_reaches_past_its_end() {
    let mut sink = MemorySink::from_vec(b"0123".to_vec());
    assert_eq!(sink.stream_position(), 0);
    sink.seek(2).unwrap();
    sink.write_all(b"abcdef");
    assert_eq!(sink.stream_position(), 8);
    assert_eq!(sink.get_ref(), b"01abcdef");
}

#[test]
fn memory_sink_refuses_a_position_behind_its_end() {
    let mut sink = MemorySink::from_vec(b"0123".to_vec());
    sink.seek(1).unwrap();
    match sink.seek(5) {
        Err(ArchiveError::SeekError(position)) => assert_eq!(position, 5),
        other => panic!("unexpected result {:?}", other),
    }
    assert_eq!(sink.stream_position(), 1);
    assert_eq!(sink.get_ref(), b"0123");
    assert!(matches!(sink.seek(u64::MAX), Err(ArchiveError::SeekError(u64::MAX))));
    assert_eq!(sink.seek(4).unwrap(), 4);
}

#[test]
fn errors_describe_themselves() {
    assert_eq!(
        ArchiveError::UnsuportedCompressionMethod(1).to_string(),
        "unsupported compression method"
    );
    assert_eq!(ArchiveError::SeekError(1).to_string(), "seek outside of the sink");
    let failure = std::io::Error::new(std::io::ErrorKind::Other, "broken");
    assert_eq!(ArchiveError::IoError(failure).to_string(), "input/output error");
}

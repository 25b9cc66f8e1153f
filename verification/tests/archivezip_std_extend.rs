use zipstream::archive::FileOptions;
use zipstream::compression::Compressor;
use zipstream::error::ArchiveError;
use zipstream::memory_sink::MemorySink;
use zipstream::zip_archive_no_stream::ZipArchiveNoStream;

const TEST_ID: &str = "NE";
const FILE_TO_COMPRESS: &str = "short_text_file.txt";
const FILE_CONTENT: &[u8] = b"A short text file.\nIt has two lines.\n";

fn compress_file(compressor: Compressor, out_file_name: &str) -> Result<(), ArchiveError> {
    let mut archive = ZipArchiveNoStream::new(MemorySink::new());

    let options = FileOptions::default().compression_method(compressor);
    archive.append_file(FILE_TO_COMPRESS, FILE_CONTENT, &options)?;

    archive.finalize()?;
    println!("{} archive size = {:?}", out_file_name, archive.get_archive_size());
    assert_eq!(archive.get_archive_size() as usize, archive.retrieve_writer().into_inner().len());
    Ok(())
}

#[test]
fn archivezip_std_extend_archive_structure_compress_store() -> Result<(), ArchiveError> {
    let compressor = Compressor::Store();
    let out_file_name = ["test_", TEST_ID, "_", &compressor.to_string(), ".zip"].join("");

    compress_file(compressor, &out_file_name)?;
    Ok(())
}

#[test]
fn archivezip_std_extend_archive_structure_zlib_deflate_tokio() -> Result<(), ArchiveError> {
    let compressor = Compressor::Deflate();
    let out_file_name = [
        "test_",
        TEST_ID,
        "_",
        &compressor.to_string(),
        "_tokio",
        ".zip",
    ]
    .join("");

    compress_file(compressor, &out_file_name)?;
    Ok(())
}

#[test]
fn archivezip_std_extend_archive_structure_compress_bzip() -> Result<(), ArchiveError> {
    let compressor = Compressor::BZip2();
    let out_file_name = ["test_", TEST_ID, "_", &compressor.to_string(), ".zip"].join("");

    compress_file(compressor, &out_file_name)?;
    Ok(())
}

#[test]
fn archivezip_std_extend_archive_structure_compress_lzma() -> Result<(), ArchiveError> {
    let compressor = Compressor::Lzma();
    let out_file_name = ["test_", TEST_ID, "_", &compressor.to_string(), ".zip"].join("");

    compress_file(compressor, &out_file_name)?;
    Ok(())
}

#[test]
fn archivezip_std_extend_archive_structure_compress_zstd() -> Result<(), ArchiveError> {
    let compressor = Compressor::Zstd();
    let out_file_name = ["test_", &compressor.to_string(), TEST_ID, ".zip"].join("");

    compress_file(compressor, &out_file_name)?;
    Ok(())
}

#[test]
fn archivezip_std_extend_archive_structure_compress_xz() -> Result<(), ArchiveError> {
    let compressor = Compressor::Xz();
    let out_file_name = ["test_", &compressor.to_string(), TEST_ID, ".zip"].join("");

    compress_file(compressor, &out_file_name)?;
    Ok(())
}

#[test]
fn unknown_method_is_told_apart_from_other_failures() {
    let compressor = Compressor::Unknown(99);
    let out_file_name = ["test_", TEST_ID, "_", &compressor.to_string(), ".zip"].join("");

    match compress_file(compressor, &out_file_name) {
        Ok(_) => panic!("an unknown method cannot be written"),
        Err(e) => assert!(matches!(e, ArchiveError::UnsuportedCompressionMethod(99))),
    }
}

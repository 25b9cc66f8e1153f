use zipstream::archive::Archive;
use zipstream::compression::Compressor;
use zipstream::types::FileDateTime;

const TEST_ID: &str = "NE";
const FILE_CONTENT: &[u8] = b"The quick brown fox jumps over the lazy dog.\n";

fn compress_file(compressor: Compressor, out_file_name: &str) {
    let mut archive = Archive::new(Vec::new());

    archive
        .append_file_no_extend("file1.txt", FileDateTime::Zero, compressor, FILE_CONTENT)
        .unwrap();

    archive.finalize().unwrap();
    println!("{} archive size = {:?}", out_file_name, archive.get_archive_size());
    assert_eq!(archive.get_archive_size(), archive.retrieve_writer().len());
}

#[test]
fn archive_no_extend_archive_structure_compress_store() {
    let compressor = Compressor::Store();
    let out_file_name = ["test_", &compressor.to_string(), TEST_ID, ".zip"].join("");

    compress_file(compressor, &out_file_name);
}

#[test]
fn archive_no_extend_archive_structure_zlib_deflate_tokio() {
    let compressor = Compressor::Deflate();
    let out_file_name = ["test_", &compressor.to_string(), "_tokio", TEST_ID, ".zip"].join("");

    compress_file(compressor, &out_file_name);
}

#[test]
fn archive_no_extend_archive_structure_compress_bzip() {
    let compressor = Compressor::BZip2();
    let out_file_name = ["test_", &compressor.to_string(), TEST_ID, ".zip"].join("");

    compress_file(compressor, &out_file_name);
}

#[test]
fn archive_no_extend_archive_structure_compress_lzma() {
    let compressor = Compressor::Lzma();
    let out_file_name = ["test_", &compressor.to_string(), TEST_ID, ".zip"].join("");

    compress_file(compressor, &out_file_name);
}

#[test]
fn archive_no_extend_archive_structure_compress_zstd() {
    let compressor = Compressor::Zstd();
    let out_file_name = ["test_", &compressor.to_string(), TEST_ID, ".zip"].join("");

    compress_file(compressor, &out_file_name);
}

#[test]
fn archive_no_extend_archive_structure_compress_xz() {
    let compressor = Compressor::Xz();
    let out_file_name = ["test_", &compressor.to_string(), TEST_ID, ".zip"].join("");

    compress_file(compressor, &out_file_name);
}

#[test]
fn archive_structure_zlib_deflate_flate2() {
    let compressor = Compressor::Deflate();
    let out_file_name = ["test_", &compressor.to_string(), TEST_ID, "_flate", ".zip"].join("");

    compress_file(compressor, &out_file_name);
}

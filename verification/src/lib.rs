//! A ZIP archive writer whose byte layout is stated and proved.
//!
//! Entries are appended to an in-memory sink one after another; `finalize` then
//! writes the central directory and the end record. Every function that emits
//! bytes says, as a sequence of bytes, exactly what it emits.
//!
//! - [`layout`] defines the records of the format as sequences of bytes, and
//!   [`model`] an archive in the making as plain values.
//! - [`descriptor`] and [`archive_common`] build those records.
//! - [`zip_archive`] writes strictly forward and follows every payload with a
//!   data descriptor; [`zip_archive_no_stream`] goes back into each local header
//!   once the payload is written; [`archive`] writes forward and takes entries
//!   with either kind of header.
//! - [`compression`] encodes payloads with the codecs of [`codec`], which are
//!   taken on trust.
//! - [`laws`] proves what holds of every archive that the writers produce.

pub mod archive;
pub mod archive_common;
pub mod async_write_wrapper;
pub mod codec;
pub mod compression;
pub mod constants;
pub mod descriptor;
pub mod error;
pub mod forward_writer;
pub mod laws;
pub mod layout;
pub mod memory_sink;
pub mod model;
pub mod types;
pub mod zip_archive;
pub mod zip_archive_no_stream;

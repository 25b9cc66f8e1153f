//! Sizes, signatures and flags of the ZIP format.

use vstd::prelude::*;

verus! {

/// Size of a local file header without the file name.
pub const FILE_HEADER_BASE_SIZE: usize = 30;

/// Size of a data descriptor, its signature included.
pub const DESCRIPTOR_SIZE: usize = 16;

/// Size of a central directory entry without the file name.
pub const CENTRAL_DIRECTORY_ENTRY_BASE_SIZE: usize = 46;

/// Size of the end of central directory record without the comment.
pub const END_OF_CENTRAL_DIRECTORY_SIZE: usize = 22;

/// Offset of the CRC-32 field from the start of a local file header.
pub const FILE_HEADER_CRC_OFFSET: usize = 14;

/// Size of the CRC-32, compressed size and uncompressed size fields together.
pub const FILE_HEADER_SIZES_LENGTH: usize = 12;

pub const CENTRAL_DIRECTORY_END_SIGNATURE: u32 = 0x06054b50;

pub const CENTRAL_DIRECTORY_ENTRY_SIGNATURE: u32 = 0x02014b50;

pub const LOCAL_FILE_HEADER_SIGNATURE: u32 = 0x04034b50;

pub const DATA_DESCRIPTOR_SIGNATURE: u32 = 0x08074b50;

/// Version of the ZIP specification that the writer implements (4.6).
pub const DEFAULT_VERSION: u8 = 46;

/// Host system code for Unix.
pub const UNIX: u8 = 3;

/// The "version made by" field: Unix host in the high byte, 4.6 in the low one.
pub const VERSION_MADE_BY: u16 = 0x032e;

/// General purpose flag: CRC-32 and sizes follow the payload in a data descriptor.
pub const FLAG_DATA_DESCRIPTOR: u16 = 0x0008;

/// General purpose flag: the file name is UTF-8 with at least one multi-byte character.
pub const FLAG_UTF8: u16 = 0x0800;

/// File type bits of a regular file in a Unix mode.
pub const UNIX_REGULAR_FILE: u32 = 0o100000;

/// Permissions given to an entry when the options set none: `rw-r--r--`.
pub const DEFAULT_PERMISSIONS: u32 = 0o644;

/// Longest archive comment, in bytes, that the end record can describe.
pub const MAX_COMMENT_LENGTH: usize = 0xffff;

} // verus!

//! The errors of the library.

use vstd::prelude::*;

verus! {

/// `std::io::Error`, which the codecs return when they fail. Nothing is known of its content.
#[verifier::external_type_specification]
#[verifier::external_body]
pub struct ExIoError(std::io::Error);

/// Why an operation on an archive failed.
#[derive(Debug)]
pub enum ArchiveError {
    /// The entry asks for a compression method, given by its code, that cannot be written.
    UnsuportedCompressionMethod(u16),
    /// A codec reported a failure while it encoded a payload.
    IoError(std::io::Error),
    /// A seekable sink was asked for a position, given here, that lies behind its end.
    SeekError(u64),
}

impl ArchiveError {
    /// A short description of the error.
    pub fn to_string(&self) -> (text: String)
        ensures
            text@ == self.spec_message(),
    {
        match self {
            ArchiveError::UnsuportedCompressionMethod(_) => {
                "unsupported compression method".to_owned()
            },
            ArchiveError::IoError(_) => "input/output error".to_owned(),
            ArchiveError::SeekError(_) => "seek outside of the sink".to_owned(),
        }
    }

    pub open spec fn spec_message(&self) -> Seq<char> {
        match self {
            ArchiveError::UnsuportedCompressionMethod(_) => "unsupported compression method"@,
            ArchiveError::IoError(_) => "input/output error"@,
            ArchiveError::SeekError(_) => "seek outside of the sink"@,
        }
    }
}

} // verus!

use vstd::prelude::*;

verus! {

/// `std::io::Error`, carried unopened from the file system to the caller.
#[verifier::external_type_specification]
#[verifier::external_body]
pub struct ExIoError(std::io::Error);

/// Why loading or writing a checkpoint failed.
#[derive(Debug)]
pub enum Error {
    /// The file system refused an operation: opening, reading, creating a
    /// directory or writing a file.
    IOError(std::io::Error),
    /// The bytes of a checkpoint file do not decode as a checkpoint; the
    /// decoder's message says why.
    InvalidCheckpoint(String),
}

} // verus!

//! Errors of the first file format.
use vstd::prelude::*;

verus! {

/// Errors of the database of the first file format.
#[derive(Debug)]
pub enum DbError {
    IoError(std::io::Error),
    InvalidColumnName { msg: String, name: String },
    ColumnTypeMismatch(String),
    SizeExceeded { msg: String, max: usize },
    SizeMismatch { msg: String, size_1: usize, size_2: usize },
    CompressionError(String),
    DecompressionError(String),
    UnsupportedType(String),
    Other(String),
}

/// `std::io::Error::new` with `ErrorKind::Other` and the message `msg`.
/// Nothing is claimed of the error made.
#[verifier::external_body]
pub(crate) fn io_other_err_wrapper(msg: &str) -> (r: std::io::Error) {
    std::io::Error::new(std::io::ErrorKind::Other, msg)
}

} // verus!

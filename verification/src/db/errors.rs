use vstd::prelude::*;
use crate::db::storage::text::{decimal_text, push_decimal};
use crate::external::std_text::string_push_str;

verus! {

/// `std::io::Error` as carried by [`DbError::IoError`]; Verus sees nothing inside it.
#[verifier::external_type_specification]
#[verifier::external_body]
pub struct ExIoError(std::io::Error);

/// Errors of the database engine.
#[derive(Debug)]
pub enum DbError {
    IoError(std::io::Error),
    InvalidColumnName { msg: String, name: String },
    ColumnTypeMismatch(String),
    SizeExceeded { msg: String, max: usize },
    SizeMismatch { msg: String, size_1: usize, size_2: usize },
    WrongSize(String),
    CompressionError(String),
    DecompressionError(String),
    UnsupportedType(String),
    NotFound(String),
    InternalDbError(String),
    CsvError(String),
    InvalidName(String),
    Other(String),
}

/// The text of an error other than an I/O error (an I/O error's text is
/// "IO error: " followed by the text of the `std::io::Error`).
pub open spec fn db_error_text(e: DbError) -> Seq<char> {
    match e {
        DbError::IoError(_) => "IO error: "@,
        DbError::InvalidColumnName { msg, name } => msg@ + ". Invalid column name: "@ + name@,
        DbError::ColumnTypeMismatch(msg) => "Column type mismatch: "@ + msg@,
        DbError::SizeExceeded { msg, max } => msg@ + ". Size exceeded: max="@ + decimal_text(max as nat) + ", "@,
        DbError::SizeMismatch { msg, size_1, size_2 } => msg@ + ". Size mismatch: size1="@ + decimal_text(size_1 as nat)
            + ", size2="@ + decimal_text(size_2 as nat),
        DbError::WrongSize(msg) => "WrongSize: "@ + msg@,
        DbError::CompressionError(msg) => "Compression error: "@ + msg@,
        DbError::DecompressionError(msg) => "Decompression error: "@ + msg@,
        DbError::UnsupportedType(msg) => "Unsupported type: "@ + msg@,
        DbError::NotFound(msg) => "Not found: "@ + msg@,
        DbError::InternalDbError(msg) => "Internal Db error: "@ + msg@,
        DbError::CsvError(msg) => "CSV error: "@ + msg@,
        DbError::InvalidName(msg) => "Invalid Name: '"@ + msg@ + "'"@,
        DbError::Other(msg) => "Error: "@ + msg@,
    }
}

/// The text of a `std::io::Error` (its `Display`). Nothing is claimed of
/// the text.
#[verifier::external_body]
pub(crate) fn io_error_text(e: &std::io::Error) -> (r: String) {
    e.to_string()
}

impl DbError {
    /// The HTTP status a failed request for a query result or error is
    /// answered with: 404 when something was not found, 500 for I/O and
    /// internal errors, 400 for the rest.
    pub fn http_status(&self) -> (r: u16)
        ensures
            r == (match self {
                DbError::NotFound(_) => 404u16,
                DbError::IoError(_) | DbError::InternalDbError(_) => 500u16,
                _ => 400u16,
            }),
    {
        match self {
            DbError::NotFound(_) => 404,
            DbError::IoError(_) => 500,
            DbError::InternalDbError(_) => 500,
            _ => 400,
        }
    }

    /// The text of the error: [`db_error_text`], and for an I/O error the
    /// text of the `std::io::Error` after it.
    pub fn message(&self) -> (r: String)
        ensures
            !(*self is IoError) ==> r@ == db_error_text(*self),
            *self is IoError ==> db_error_text(*self).is_prefix_of(r@),
    {
        let mut s = String::new();
        match self {
            DbError::IoError(e) => {
                string_push_str(&mut s, "IO error: ");
                let t = io_error_text(e);
                let ghost before = s@;
                string_push_str(&mut s, t.as_str());
                assert(s@.take(before.len() as int) =~= before);
            },
            DbError::InvalidColumnName { msg, name } => {
                string_push_str(&mut s, msg.as_str());
                string_push_str(&mut s, ". Invalid column name: ");
                string_push_str(&mut s, name.as_str());
            },
            DbError::ColumnTypeMismatch(msg) => {
                string_push_str(&mut s, "Column type mismatch: ");
                string_push_str(&mut s, msg.as_str());
            },
            DbError::SizeExceeded { msg, max } => {
                string_push_str(&mut s, msg.as_str());
                string_push_str(&mut s, ". Size exceeded: max=");
                push_decimal(&mut s, *max);
                string_push_str(&mut s, ", ");
            },
            DbError::SizeMismatch { msg, size_1, size_2 } => {
                string_push_str(&mut s, msg.as_str());
                string_push_str(&mut s, ". Size mismatch: size1=");
                push_decimal(&mut s, *size_1);
                string_push_str(&mut s, ", size2=");
                push_decimal(&mut s, *size_2);
            },
            DbError::WrongSize(msg) => {
                string_push_str(&mut s, "WrongSize: ");
                string_push_str(&mut s, msg.as_str());
            },
            DbError::CompressionError(msg) => {
                string_push_str(&mut s, "Compression error: ");
                string_push_str(&mut s, msg.as_str());
            },
            DbError::DecompressionError(msg) => {
                string_push_str(&mut s, "Decompression error: ");
                string_push_str(&mut s, msg.as_str());
            },
            DbError::UnsupportedType(msg) => {
                string_push_str(&mut s, "Unsupported type: ");
                string_push_str(&mut s, msg.as_str());
            },
            DbError::NotFound(msg) => {
                string_push_str(&mut s, "Not found: ");
                string_push_str(&mut s, msg.as_str());
            },
            DbError::InternalDbError(msg) => {
                string_push_str(&mut s, "Internal Db error: ");
                string_push_str(&mut s, msg.as_str());
            },
            DbError::CsvError(msg) => {
                string_push_str(&mut s, "CSV error: ");
                string_push_str(&mut s, msg.as_str());
            },
            DbError::InvalidName(msg) => {
                string_push_str(&mut s, "Invalid Name: '");
                string_push_str(&mut s, msg.as_str());
                string_push_str(&mut s, "'");
            },
            DbError::Other(msg) => {
                string_push_str(&mut s, "Error: ");
                string_push_str(&mut s, msg.as_str());
            },
        }
        s
    }
}

impl From<std::io::Error> for DbError {
    fn from(error: std::io::Error) -> (r: DbError) {
        DbError::IoError(error)
    }
}

impl vstd::std_specs::convert::FromSpecImpl<std::io::Error> for DbError {
    open spec fn obeys_from_spec() -> bool {
        true
    }

    open spec fn from_spec(error: std::io::Error) -> DbError {
        DbError::IoError(error)
    }
}

} // verus!

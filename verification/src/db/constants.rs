use vstd::prelude::*;

verus! {

pub const MB_1: usize = 1048576;

/// Size of buffer we read data into.
pub const BUF_SIZE: usize = 67108864;
/// Number of rows saved in one batch.
pub const BATCH_SIZE: usize = 10;

/// The form every metadata file path and data directory path must have.
pub const FILE_PATH_REGEX: &'static str = "^\\.?[a-zA-Z/]([a-zA-Z0-9_/]*|/\\.)*[a-zA-Z0-9_]*$";
pub const METADATA_FILE_PATH: &'static str = "./db_metadata";
pub const DB_DATA_DIR: &'static str = "./db_data";
pub const CSV_DELIM: u8 = 59u8;

pub const COPY_QUERY_NAME: &'static str = "COPY QUERY";
pub const SELECT_QUERY_NAME: &'static str = "SELECT QUERY";

pub const NULL_TERMINATOR_SIZE: usize = 1;
pub const COLUMN_HEADER_METADATA_SIZE: usize = 12;

pub const MAX_COL_NAME_LEN: usize = 255;
pub const MAX_COL_COUNT: usize = 65535;
pub const MAX_STR_DATA_LEN: usize = 1048576;
/// `u32::MAX - MAX_COL_NAME_LEN - NULL_TERMINATOR_SIZE - COLUMN_HEADER_METADATA_SIZE`.
pub const MAX_FILE_SIZE: u32 = 4294967027u32;

pub const MAX_ALLOWED_METADATA_CHANGES: u16 = 10;
pub const MAX_DB_WORKERS: usize = 10;

pub const ZSTD_ENCODE_LEVEL: i32 = 3i32;
pub const MAGIC_WORD: u32 = 0xF1FAAu32;

} // verus!

use crate::db::errors::DbError;

verus! {

/// Logical type of a column.
#[derive(Clone, Copy, Debug, PartialEq, Eq, Structural)]
pub enum LogicalColType {
    INT64,
    VARCHAR,
}

/// The byte that stands for a column type in a file: 0 for INT64, 1 for VARCHAR.
pub open spec fn col_type_code(t: LogicalColType) -> u8 {
    match t {
        LogicalColType::INT64 => 0,
        LogicalColType::VARCHAR => 1,
    }
}

impl LogicalColType {
    pub fn to_u8(&self) -> (r: u8)
        ensures
            r == col_type_code(*self),
    {
        match self {
            LogicalColType::INT64 => 0,
            LogicalColType::VARCHAR => 1,
        }
    }

    /// 0 is INT64, 1 is VARCHAR; any other byte is a type mismatch.
    pub fn from_u8(val: u8) -> (r: Result<LogicalColType, DbError>)
        ensures
            val <= 1 <==> r is Ok,
            r matches Ok(t) ==> col_type_code(t) == val,
            r is Err ==> r->Err_0 is ColumnTypeMismatch,
    {
        if val == 0 {
            Ok(LogicalColType::INT64)
        } else if val == 1 {
            Ok(LogicalColType::VARCHAR)
        } else {
            Err(DbError::ColumnTypeMismatch(
                "AllowedColTypese::from_u8 - got neither 0 nor 1".to_string(),
            ))
        }
    }

    /// The name of the type, as it is displayed.
    pub fn display_name(&self) -> (r: &'static str)
        ensures
            r@ == (match *self {
                LogicalColType::INT64 => "INT64"@,
                LogicalColType::VARCHAR => "VARCHAR"@,
            }),
    {
        match self {
            LogicalColType::INT64 => "INT64",
            LogicalColType::VARCHAR => "VARCHAR",
        }
    }
}

/// Type codes are distinct and always accepted by `from_u8`: a type written
/// with `to_u8` reads back as the same type.
pub proof fn lemma_col_type_code_roundtrip(t1: LogicalColType, t2: LogicalColType)
    ensures
        col_type_code(t1) <= 1,
        col_type_code(t1) == col_type_code(t2) ==> t1 == t2,
{
}

} // verus!

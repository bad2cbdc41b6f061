//! Constants of the first file format.
use vstd::prelude::*;

verus! {

pub const MAGIC_WORD: u32 = 0xF1FAAu32;

pub const METADATA_FILE_PATH: &'static str = "./db_metadata";
pub const DB_DATA_DIR: &'static str = "./db_data";

pub const NULL_TERMINATOR_SIZE: usize = 1;
pub const COLUMN_HEADER_SIZE: usize = 12;

/// Longest column name read back, without the null byte.
pub const MAX_COL_NAME_LEN: usize = 50;
/// Longest string value read back (8 MiB).
pub const MAX_DATA_STR_LEN: usize = 8388608;
/// Bytes a column file may hold.
pub const MAX_FILE_SIZE: u32 = 20u32;

/// Size of the buffer column files are read into.
pub const CHUNK_SIZE_BYTES: usize = 25;
/// Number of rows saved in one batch.
pub const BATCH_SIZE: usize = 10;

/// The types a column may have.
#[derive(Clone, Copy, PartialEq, Eq, Debug, Structural)]
pub enum AllowedColTypes {
    IntType,
    StrType,
}

/// The byte that stands for a column type: 0 for ints, 1 for strings.
pub open spec fn allowed_type_code(t: AllowedColTypes) -> u8 {
    match t {
        AllowedColTypes::IntType => 0,
        AllowedColTypes::StrType => 1,
    }
}

impl AllowedColTypes {
    /// The type a byte stands for; an error for a byte other than 0 or 1.
    pub fn from_u8(x: u8) -> (r: Result<AllowedColTypes, String>)
        ensures
            r is Ok <==> x <= 1,
            r matches Ok(t) ==> allowed_type_code(t) == x,
            r matches Err(m) ==> m@ == "AllowedColTypese - from_u8 - got neither 0 nor 1"@,
    {
        if x == 0 {
            Ok(AllowedColTypes::IntType)
        } else if x == 1 {
            Ok(AllowedColTypes::StrType)
        } else {
            Err("AllowedColTypese - from_u8 - got neither 0 nor 1".to_string())
        }
    }

    /// The byte of a type.
    pub fn to_u8(t: &AllowedColTypes) -> (r: u8)
        ensures
            r == allowed_type_code(*t),
    {
        match t {
            AllowedColTypes::IntType => 0,
            AllowedColTypes::StrType => 1,
        }
    }
}

/// Turning a type into its byte and back gives the type.
pub proof fn lemma_allowed_type_roundtrip(t: AllowedColTypes, u: AllowedColTypes)
    ensures
        allowed_type_code(t) <= 1,
        allowed_type_code(t) == allowed_type_code(u) ==> t == u,
{
}

} // verus!

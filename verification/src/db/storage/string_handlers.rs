//! Null-terminated strings in byte buffers, and the rule for column names.
use vstd::prelude::*;
use vstd::utf8::{encode_utf8, is_ascii_chars};
use crate::db::constants::{MAX_COL_NAME_LEN, MAX_STR_DATA_LEN};
use crate::db::errors::DbError;
use crate::db::storage::text::{byte_len, lemma_byte_len_push_ascii, str_byte_len};
use crate::external::regex_api::regex_match;
use crate::external::std_text::{string_push, string_push_str};

verus! {

/// Which length limit [`read_string_from_buf`] enforces.
pub enum StrLenCheckType {
    ColNameLenCheck,
    DataLenCheck,
    NoCheck,
}

/// The byte length a string may reach under a check, if any.
pub open spec fn len_limit(t: StrLenCheckType) -> Option<nat> {
    match t {
        StrLenCheckType::ColNameLenCheck => Some(MAX_COL_NAME_LEN as nat),
        StrLenCheckType::DataLenCheck => Some(MAX_STR_DATA_LEN as nat),
        StrLenCheckType::NoCheck => None,
    }
}

/// Why reading a string from a buffer stopped.
pub enum ReadStrStop {
    /// A null byte ended the string; it was consumed.
    Terminated,
    /// The valid part of the buffer ran out before a null byte.
    OutOfData,
    /// A byte that is not ASCII was met.
    NonAscii,
    /// The string grew past its length limit.
    TooLong,
}

/// Reading characters from `buf[idx..end]` onto `res`: how it stops, the
/// index it stops at and the string read by then.
pub open spec fn read_str_run(idx: int, end: int, buf: Seq<u8>, res: Seq<char>, limit: Option<nat>) -> (
    ReadStrStop,
    int,
    Seq<char>,
)
    decreases end - idx,
{
    if idx >= end {
        (ReadStrStop::OutOfData, idx, res)
    } else if buf[idx] == 0 {
        (ReadStrStop::Terminated, idx + 1, res)
    } else if buf[idx] >= 128 {
        (ReadStrStop::NonAscii, idx, res)
    } else {
        let r2 = res.push(buf[idx] as char);
        if limit is Some && byte_len(r2) > limit->0 {
            (ReadStrStop::TooLong, idx, r2)
        } else {
            read_str_run(idx + 1, end, buf, r2, limit)
        }
    }
}

/// Reads characters from `buf`, starting at `*curr_buf_idx`, onto `res_str`
/// up to a null byte (consumed; `Ok(true)`) or the end of the valid bytes
/// `bytes_read` (`Ok(false)`: more data is needed). A byte that is not ASCII
/// is an internal error; a string longer than the limit of `len_check_type`
/// is `SizeExceeded`.
pub fn read_string_from_buf(
    curr_buf_idx: &mut usize,
    bytes_read: usize,
    buf: &[u8],
    res_str: &mut String,
    len_check_type: StrLenCheckType,
) -> (r: Result<bool, DbError>)
    requires
        bytes_read <= buf@.len(),
    ensures
        ({
            let (stop, i2, s2) = read_str_run(
                *old(curr_buf_idx) as int,
                bytes_read as int,
                buf@,
                old(res_str)@,
                len_limit(len_check_type),
            );
            &&& *final(curr_buf_idx) == i2
            &&& final(res_str)@ == s2
            &&& match stop {
                ReadStrStop::Terminated => r == Ok::<bool, DbError>(true),
                ReadStrStop::OutOfData => r == Ok::<bool, DbError>(false),
                ReadStrStop::NonAscii => r is Err && r->Err_0 is InternalDbError,
                ReadStrStop::TooLong => r is Err && r->Err_0 is SizeExceeded,
            }
        }),
{
    let ghost start_idx = *curr_buf_idx as int;
    let ghost start_res = res_str@;
    let ghost lim = len_limit(len_check_type);
    loop
        invariant
            bytes_read <= buf@.len(),
            lim == len_limit(len_check_type),
            start_idx == *old(curr_buf_idx) as int,
            start_res == old(res_str)@,
            read_str_run(*curr_buf_idx as int, bytes_read as int, buf@, res_str@, lim)
                == read_str_run(start_idx, bytes_read as int, buf@, start_res, lim),
        decreases bytes_read - *curr_buf_idx,
    {
        if *curr_buf_idx >= bytes_read {
            return Ok(false);
        }
        let c = buf[*curr_buf_idx];
        if c == 0 {
            *curr_buf_idx = *curr_buf_idx + 1;
            return Ok(true);
        }
        if c >= 128 {
            return Err(DbError::InternalDbError(
                "read_string_from_buf: we've read not an ASCII character".to_string(),
            ));
        }
        let ch: char = c as char;
        proof {
            lemma_byte_len_push_ascii(res_str@, ch);
        }
        string_push(res_str, ch);
        let cur_len = str_byte_len(res_str.as_str());
        match len_check_type {
            StrLenCheckType::ColNameLenCheck => {
                if cur_len > MAX_COL_NAME_LEN {
                    return Err(DbError::SizeExceeded {
                        msg: "read_string_from_buf - column name too long".to_string(),
                        max: MAX_COL_NAME_LEN,
                    });
                }
            },
            StrLenCheckType::DataLenCheck => {
                if cur_len > MAX_STR_DATA_LEN {
                    return Err(DbError::SizeExceeded {
                        msg: "read_string_from_buf: VARCHAR has too big size, we do not allow such string size in our database".to_string(),
                        max: MAX_STR_DATA_LEN,
                    });
                }
            },
            StrLenCheckType::NoCheck => {},
        }
        *curr_buf_idx = *curr_buf_idx + 1;
    }
}

/// The pattern every column name must match.
pub open spec fn col_name_pattern() -> Seq<char> {
    "^[a-zA-Z][a-zA-Z0-9_]*$"@
}

/// An ASCII letter.
pub open spec fn is_ascii_letter(c: char) -> bool {
    ('a' as u32 <= c as u32 && c as u32 <= 'z' as u32) || ('A' as u32 <= c as u32 && c as u32 <= 'Z' as u32)
}

/// An ASCII letter or digit, or `_`.
pub open spec fn is_word_char(c: char) -> bool {
    is_ascii_letter(c) || ('0' as u32 <= c as u32 && c as u32 <= '9' as u32) || c == '_'
}

/// What [`col_name_pattern`] matches: a letter, then letters, digits and
/// underscores.
pub open spec fn col_name_shape(name: Seq<char>) -> bool {
    &&& name.len() > 0
    &&& is_ascii_letter(name[0])
    &&& forall|i: int| 1 <= i < name.len() ==> is_word_char(#[trigger] name[i])
}

/// A column name is at most [`MAX_COL_NAME_LEN`] bytes, ASCII, and of the
/// form of [`col_name_shape`] (the names [`col_name_pattern`] matches).
pub open spec fn col_name_valid(name: Seq<char>) -> bool {
    &&& byte_len(name) <= MAX_COL_NAME_LEN
    &&& is_ascii_chars(name)
    &&& col_name_shape(name)
}

/// The error [`check_col_name_correctness`] gives for a name, if any.
pub open spec fn col_name_error_is(name: Seq<char>, e: DbError) -> bool {
    if byte_len(name) > MAX_COL_NAME_LEN || !is_ascii_chars(name) || !col_name_shape(name) {
        e matches DbError::InvalidColumnName { name: n, .. } && n@ == name
    } else {
        e is Other
    }
}

/// What the pattern check of a column name decides, given whether the
/// pattern compiled (`Some`) and then matched the name: a pattern that does
/// not compile is an `Other` error, a name that does not match an
/// `InvalidColumnName` error naming it.
pub fn col_name_verdict(col_name: &String, matched: Option<bool>) -> (r: Result<(), DbError>)
    ensures
        matched == Some(true) <==> r is Ok,
        matched is None ==> r matches Err(DbError::Other(_)),
        matched == Some(false) ==> (r matches Err(DbError::InvalidColumnName { name: n, .. }) && n@ == col_name@),
{
    match matched {
        None => Err(DbError::Other("Failed to compile regex".to_string())),
        Some(false) => Err(DbError::InvalidColumnName {
            msg: "Column name must start with a letter and contain only letters, numbers, and underscores".to_string(),
            name: col_name.clone(),
        }),
        Some(true) => Ok(()),
    }
}

/// Checks the rule for column names (see [`col_name_valid`]).
pub fn check_col_name_correctness(col_name: &String) -> (r: Result<(), DbError>)
    ensures
        r is Ok <==> col_name_valid(col_name@),
        r matches Err(e) ==> col_name_error_is(col_name@, e),
{
    if str_byte_len(col_name.as_str()) > MAX_COL_NAME_LEN {
        return Err(DbError::InvalidColumnName {
            msg: "Column name exceeds maximum length 255".to_string(),
            name: col_name.clone(),
        });
    }
    if !col_name.as_str().is_ascii() {
        return Err(DbError::InvalidColumnName {
            msg: "Column name contains non-ASCII characters".to_string(),
            name: col_name.clone(),
        });
    }
    let pattern: &str = "^[a-zA-Z][a-zA-Z0-9_]*$";
    proof {
        assert(pattern@ == col_name_pattern());
    }
    col_name_verdict(col_name, regex_match(pattern, col_name.as_str()))
}

/// The bytes of an ASCII string followed by a null byte, as strings are kept
/// in files. Strings longer than [`MAX_COL_NAME_LEN`] bytes are refused
/// (`SizeExceeded`), then strings that are not ASCII (`UnsupportedType`).
pub fn string_with_null_char_bytes(s: &String) -> (r: Result<Vec<u8>, DbError>)
    ensures
        byte_len(s@) > MAX_COL_NAME_LEN ==> r is Err && r->Err_0 is SizeExceeded,
        byte_len(s@) <= MAX_COL_NAME_LEN && !is_ascii_chars(s@) ==> r is Err && r->Err_0 is UnsupportedType,
        byte_len(s@) <= MAX_COL_NAME_LEN && is_ascii_chars(s@) ==> r is Ok,
        r matches Ok(v) ==> v@ == encode_utf8(s@).push(0),
{
    if str_byte_len(s.as_str()) > MAX_COL_NAME_LEN {
        return Err(DbError::SizeExceeded {
            msg: "save_string_to_file_with_null_char:".to_string(),
            max: MAX_COL_NAME_LEN,
        });
    }
    if !s.as_str().is_ascii() {
        return Err(DbError::UnsupportedType(
            "save_string_to_file_with_null_char: string is not ASCII".to_string(),
        ));
    }
    let mut out = vstd::slice::slice_to_vec(s.as_str().as_bytes());
    out.push(0u8);
    Ok(out)
}

} // verus!

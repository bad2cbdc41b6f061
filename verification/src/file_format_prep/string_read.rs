//! Reading null-terminated strings from byte buffers (first file format).
use vstd::prelude::*;
use crate::db::storage::string_handlers::{read_str_run, ReadStrStop};
use crate::db::storage::text::{lemma_byte_len_push_ascii, str_byte_len};
use crate::external::std_text::string_push;
use crate::file_format_prep::constants::{MAX_COL_NAME_LEN, MAX_DATA_STR_LEN};
use crate::file_format_prep::errors::io_other_err_wrapper;

verus! {

/// Which length limit [`read_string_from_buf`] enforces.
#[derive(PartialEq, Eq, Structural)]
pub enum StrLenCheckType {
    ColNameLenCheck,
    DataLenCheck,
    NoCheck,
}

/// The byte length a string may reach under a check, if any.
pub open spec fn len_limit(t: StrLenCheckType) -> Option<nat> {
    match t {
        StrLenCheckType::ColNameLenCheck => Some(MAX_COL_NAME_LEN as nat),
        StrLenCheckType::DataLenCheck => Some(MAX_DATA_STR_LEN as nat),
        StrLenCheckType::NoCheck => None,
    }
}

/// Reads characters from `buf`, starting at `*curr_buf_idx`, onto `res_str`
/// up to a null byte (consumed; `Ok(true)`) or the end of the valid bytes
/// `bytes_read` (`Ok(false)`: more data is needed). A byte that is not ASCII,
/// or a string longer than the limit of `len_check_type`, is an error.
pub fn read_string_from_buf(
    curr_buf_idx: &mut usize,
    bytes_read: usize,
    buf: &[u8],
    res_str: &mut String,
    len_check_type: StrLenCheckType,
) -> (r: Result<bool, std::io::Error>)
    requires
        bytes_read <= buf@.len(),
    ensures
        ({
            let (stop, i2, s2) = read_str_run(
                *old(curr_buf_idx) as int,
                bytes_read as int,
                buf@,
                old(res_str)@,
                len_limit(len_check_type),
            );
            &&& *final(curr_buf_idx) == i2
            &&& final(res_str)@ == s2
            &&& match stop {
                ReadStrStop::Terminated => r matches Ok(b) && b,
                ReadStrStop::OutOfData => r matches Ok(b) && !b,
                _ => r is Err,
            }
        }),
{
    let ghost start_idx = *curr_buf_idx as int;
    let ghost start_res = res_str@;
    let ghost lim = len_limit(len_check_type);
    loop
        invariant
            bytes_read <= buf@.len(),
            lim == len_limit(len_check_type),
            start_idx == *old(curr_buf_idx) as int,
            start_res == old(res_str)@,
            read_str_run(*curr_buf_idx as int, bytes_read as int, buf@, res_str@, lim)
                == read_str_run(start_idx, bytes_read as int, buf@, start_res, lim),
        decreases bytes_read - *curr_buf_idx,
    {
        if *curr_buf_idx >= bytes_read {
            return Ok(false);
        }
        let c = buf[*curr_buf_idx];
        if c == 0 {
            *curr_buf_idx = *curr_buf_idx + 1;
            return Ok(true);
        }
        if c >= 128 {
            return Err(io_other_err_wrapper("DbMetadata - read_metadata - we've read not an ASCII character"));
        }
        let ch: char = c as char;
        proof {
            lemma_byte_len_push_ascii(res_str@, ch);
        }
        string_push(res_str, ch);
        let cur_len = str_byte_len(res_str.as_str());
        if len_check_type == StrLenCheckType::ColNameLenCheck && cur_len > MAX_COL_NAME_LEN {
            return Err(io_other_err_wrapper("read_string_from_buf - column name exceeds the allowed number of characters"));
        } else if len_check_type == StrLenCheckType::DataLenCheck && cur_len > MAX_DATA_STR_LEN {
            return Err(io_other_err_wrapper("read_string_from_buf - str data exceeds MAX allowed size"));
        }
        *curr_buf_idx = *curr_buf_idx + 1;
    }
}

} // verus!

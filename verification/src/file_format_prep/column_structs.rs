//! The header of a column file in the first file format.
use vstd::prelude::*;
use vstd::utf8::encode_utf8;
use crate::db::storage::bytes_be::{be_u16_at, be_u32_at, push_be_u16, push_be_u32, read_be_u16, read_be_u32, u16_be_bytes, u32_be_bytes};
use crate::db::storage::col_header::path_ends_with_slash;
use crate::db::storage::string_handlers::{col_name_valid, read_str_run, ReadStrStop};
use crate::db::storage::text::{byte_len, decimal_text, push_decimal, str_byte_len};
use crate::external::regex_api::regex_match;
use crate::external::std_text::string_push_str;
use crate::file_format_prep::constants::{allowed_type_code, AllowedColTypes, DB_DATA_DIR, MAGIC_WORD, MAX_COL_NAME_LEN, MAX_FILE_SIZE};
use crate::file_format_prep::errors::io_other_err_wrapper;
use crate::file_format_prep::string_read::{read_string_from_buf, StrLenCheckType};

verus! {

/// Bytes of the fixed part of a header plus one name character and the null
/// byte.
pub const COL_HEADER_MIN_SIZE: usize = 14;
/// Offset of the data size in a column file.
pub const COL_HEADER_DATA_SIZE_OFFSET: u64 = 8;
/// Offset of the overflow flag in a column file.
pub const COL_HEADER_OVERFLOW_OFFSET: u64 = 7;

/// The content of a column header.
pub ghost struct FfpColHeaderView {
    pub magic_word: u32,
    pub col_id: u16,
    pub col_type: AllowedColTypes,
    pub is_overflow: bool,
    pub size_of_data: u32,
    pub col_name: Seq<char>,
}

/// The header of a column file: which column, which of its files, its type,
/// whether more files follow, and how many data bytes the file holds.
pub struct ColHeader {
    magic_word: u32,
    col_id: u16,
    col_type: AllowedColTypes,
    is_overflow: bool,
    size_of_data: u32,
    col_name: String,
}

impl View for ColHeader {
    type V = FfpColHeaderView;

    closed spec fn view(&self) -> FfpColHeaderView {
        FfpColHeaderView {
            magic_word: self.magic_word,
            col_id: self.col_id,
            col_type: self.col_type,
            is_overflow: self.is_overflow,
            size_of_data: self.size_of_data,
            col_name: self.col_name@,
        }
    }
}

/// Checks the rule for column names (see [`col_name_valid`]); the error is
/// an I/O error of kind `Other`.
pub fn check_col_name_correctness(col_name: &String) -> (r: Result<(), std::io::Error>)
    ensures
        r is Ok <==> col_name_valid(col_name@),
{
    if str_byte_len(col_name.as_str()) > 255 {
        return Err(io_other_err_wrapper("ColHeader - column name exceeds 255 characters"));
    }
    if !col_name.as_str().is_ascii() {
        return Err(io_other_err_wrapper("ColHeader - column is not ASCII"));
    }
    let pattern: &str = "^[a-zA-Z][a-zA-Z0-9_]*$";
    proof {
        assert(pattern@ == crate::db::storage::string_handlers::col_name_pattern());
    }
    match regex_match(pattern, col_name.as_str()) {
        Some(true) => Ok(()),
        _ => Err(io_other_err_wrapper("Column names must match regex: ^[a-zA-Z][a-zA-Z0-9_]*$")),
    }
}

/// The type whose byte is `b` (meaningful for `b <= 1`).
pub open spec fn allowed_type_of_code(b: u8) -> AllowedColTypes {
    if b == 0 { AllowedColTypes::IntType } else { AllowedColTypes::StrType }
}

/// The bytes of a header at the start of a column file: magic word, file
/// id, type byte, overflow flag, data size (big-endian), then the name and
/// a null byte.
pub open spec fn ffp_header_bytes(h: FfpColHeaderView) -> Seq<u8> {
    u32_be_bytes(h.magic_word) + u16_be_bytes(h.col_id) + seq![allowed_type_code(h.col_type)] + seq![
        if h.is_overflow { 1u8 } else { 0u8 },
    ] + u32_be_bytes(h.size_of_data) + encode_utf8(h.col_name) + seq![0u8]
}

impl ColHeader {
    #[verifier::type_invariant]
    spec fn name_is_valid(&self) -> bool {
        col_name_valid(self.col_name@)
    }

    pub fn new(
        col_id: u16,
        col_type: AllowedColTypes,
        is_overflow: bool,
        size_of_data: u32,
        col_name: String,
    ) -> (r: Result<ColHeader, std::io::Error>)
        ensures
            r is Ok <==> col_name_valid(col_name@),
            r matches Ok(h) ==> h@ == (FfpColHeaderView {
                magic_word: MAGIC_WORD,
                col_id,
                col_type,
                is_overflow,
                size_of_data,
                col_name: col_name@,
            }),
    {
        check_col_name_correctness(&col_name)?;
        Ok(ColHeader { magic_word: MAGIC_WORD, col_id, col_type, is_overflow, size_of_data, col_name })
    }

    /// The first file of a column: id 0, no overflow, no data.
    pub fn new_empty(col_type: AllowedColTypes, col_name: String) -> (r: Result<ColHeader, std::io::Error>)
        ensures
            r is Ok <==> col_name_valid(col_name@),
            r matches Ok(h) ==> h@ == (FfpColHeaderView {
                magic_word: MAGIC_WORD,
                col_id: 0,
                col_type,
                is_overflow: false,
                size_of_data: 0,
                col_name: col_name@,
            }),
    {
        ColHeader::new(0, col_type, false, 0, col_name)
    }

    /// The header of the next file of the column: id one higher, no
    /// overflow, no data.
    pub fn create_next(&self) -> (r: Result<ColHeader, std::io::Error>)
        requires
            self@.col_id < u16::MAX,
        ensures
            r matches Ok(h) && h@ == (FfpColHeaderView {
                magic_word: MAGIC_WORD,
                col_id: (self@.col_id + 1) as u16,
                col_type: self@.col_type,
                is_overflow: false,
                size_of_data: 0,
                col_name: self@.col_name,
            }),
    {
        proof {
            use_type_invariant(self);
        }
        ColHeader::new(self.col_id + 1, self.col_type, false, 0, self.col_name.clone())
    }

    /// Reads a header from the first `bytes_read` bytes of `buf`: the fixed
    /// fields from the start of `buf`, the name from byte 12 up to a null
    /// byte or the end of the valid bytes (the index ends after it). Fewer
    /// than [`COL_HEADER_MIN_SIZE`] bytes after the read index, a wrong
    /// magic word, a type byte other than 0 or 1, a name byte that is not
    /// ASCII, a name longer than [`MAX_COL_NAME_LEN`] or an invalid name is
    /// an error.
    pub fn read_from_buf(curr_buf_idx: &mut usize, bytes_read: usize, buf: &[u8]) -> (r: Result<ColHeader, std::io::Error>)
        requires
            *old(curr_buf_idx) <= bytes_read,
            bytes_read <= buf@.len(),
        ensures
            ({
                let idx = *old(curr_buf_idx);
                let (stop, i2, name) = read_str_run(12, bytes_read as int, buf@, Seq::empty(), Some(MAX_COL_NAME_LEN as nat));
                let fixed_ok = bytes_read - idx >= COL_HEADER_MIN_SIZE && be_u32_at(buf@, 0) == MAGIC_WORD && buf@[6] <= 1;
                &&& !fixed_ok ==> r is Err && *final(curr_buf_idx) == idx
                &&& fixed_ok ==> *final(curr_buf_idx) == i2
                &&& r is Ok <==> fixed_ok && (stop is Terminated || stop is OutOfData) && col_name_valid(name)
                &&& r matches Ok(h) ==> h@ == (FfpColHeaderView {
                    magic_word: MAGIC_WORD,
                    col_id: be_u16_at(buf@, 4),
                    col_type: allowed_type_of_code(buf@[6]),
                    is_overflow: buf@[7] == 1,
                    size_of_data: be_u32_at(buf@, 8),
                    col_name: name,
                })
            }),
    {
        if bytes_read - *curr_buf_idx < COL_HEADER_MIN_SIZE {
            return Err(io_other_err_wrapper("To read column header we need more bytes in the buffer"));
        }
        let magic_word = read_be_u32(buf, 0);
        if magic_word != MAGIC_WORD {
            return Err(io_other_err_wrapper("ColHeader - read_from_buf - magic word is incorrect"));
        }
        let col_id = read_be_u16(buf, 4);
        let col_type = match AllowedColTypes::from_u8(buf[6]) {
            Ok(v) => v,
            Err(_) => {
                return Err(io_other_err_wrapper("AllowedColTypes - from_u8 - got neither 0 nor 1"));
            },
        };
        let is_overflow: bool = buf[7] == 1;
        let size_of_data = read_be_u32(buf, 8);
        *curr_buf_idx = 12;
        let mut res_str = String::new();
        proof {
            assert(res_str@ =~= Seq::<char>::empty());
        }
        read_string_from_buf(curr_buf_idx, bytes_read, buf, &mut res_str, StrLenCheckType::ColNameLenCheck)?;
        check_col_name_correctness(&res_str)?;
        Ok(ColHeader { magic_word, col_id, col_type, is_overflow, size_of_data, col_name: res_str })
    }

    /// Accounts for `new_data_len` more bytes. If the size would pass
    /// `u32::MAX`, the file is marked as overflowing instead and an error
    /// returned.
    pub fn increase_data_size(&mut self, new_data_len: u32) -> (r: Result<(), &'static str>)
        ensures
            old(self)@.size_of_data + new_data_len <= u32::MAX ==> r is Ok && final(self)@ == (FfpColHeaderView {
                size_of_data: (old(self)@.size_of_data + new_data_len) as u32,
                ..old(self)@
            }),
            old(self)@.size_of_data + new_data_len > u32::MAX ==> r is Err && final(self)@ == (FfpColHeaderView {
                is_overflow: true,
                ..old(self)@
            }),
    {
        proof {
            use_type_invariant(&*self);
        }
        match self.size_of_data.checked_add(new_data_len) {
            None => {
                self.is_overflow = true;
                Err("new data chunk won't fit in curr file")
            },
            Some(new_size) => {
                self.size_of_data = new_size;
                Ok(())
            },
        }
    }

    /// The path of this header's file in `dir_path` (`dir_path/name_id`, or
    /// `dir_pathname_id` when the path ends with a slash); an empty path is
    /// an error.
    pub fn file_name_in(&self, path: &str) -> (r: Result<String, std::io::Error>)
        ensures
            path@.len() == 0 <==> r is Err,
            r matches Ok(s) ==> s@ == (if path@.last() as u32 == '/' as u32 { path@ } else { path@ + "/"@ })
                + self@.col_name + "_"@ + decimal_text(self@.col_id as nat),
    {
        if str_byte_len(path) == 0 {
            return Err(io_other_err_wrapper("ColHeader - save_to_file - path len == 0"));
        }
        let mut out = path.to_owned();
        if !path_ends_with_slash(path) {
            string_push_str(&mut out, "/");
        }
        string_push_str(&mut out, self.col_name.as_str());
        string_push_str(&mut out, "_");
        push_decimal(&mut out, self.col_id as usize);
        Ok(out)
    }

    /// The bytes written at the start of a new column file; a header whose
    /// data would take the file past [`MAX_FILE_SIZE`] is refused.
    pub fn encode_for_file(&self) -> (r: Result<Vec<u8>, std::io::Error>)
        requires
            13 + byte_len(self@.col_name) <= MAX_FILE_SIZE,
        ensures
            r is Err <==> self@.size_of_data + 13 + byte_len(self@.col_name) > MAX_FILE_SIZE,
            r matches Ok(v) ==> v@ == ffp_header_bytes(self@),
    {
        let header_size: usize = 13 + str_byte_len(self.col_name.as_str());
        if MAX_FILE_SIZE - (header_size as u32) < self.size_of_data {
            return Err(io_other_err_wrapper("ColHeader - save_to_file - size_of_data + header data size exceeds the file size"));
        }
        let mut out: Vec<u8> = Vec::new();
        push_be_u32(&mut out, self.magic_word);
        push_be_u16(&mut out, self.col_id);
        out.push(AllowedColTypes::to_u8(&self.col_type));
        out.push(if self.is_overflow { 1u8 } else { 0u8 });
        push_be_u32(&mut out, self.size_of_data);
        let mut name = vstd::slice::slice_to_vec(self.col_name.as_str().as_bytes());
        out.append(&mut name);
        out.push(0u8);
        proof {
            assert(out@ =~= ffp_header_bytes(self@));
        }
        Ok(out)
    }

    pub fn col_id(&self) -> (r: u16)
        ensures
            r == self@.col_id,
    {
        self.col_id
    }

    pub fn col_type(&self) -> (r: AllowedColTypes)
        ensures
            r == self@.col_type,
    {
        self.col_type
    }

    pub fn is_overflow(&self) -> (r: bool)
        ensures
            r == self@.is_overflow,
    {
        self.is_overflow
    }

    pub fn size_of_data(&self) -> (r: u32)
        ensures
            r == self@.size_of_data,
    {
        self.size_of_data
    }

    pub fn col_name(&self) -> (r: &String)
        ensures
            r@ == self@.col_name,
    {
        &self.col_name
    }

    /// `./db_data/name_id` for the next file id.
    pub fn get_next_file_path(&self) -> (r: String)
        requires
            self@.col_id < u16::MAX,
        ensures
            r@ == DB_DATA_DIR@ + "/"@ + self@.col_name + "_"@ + decimal_text(self@.col_id as nat + 1),
    {
        let mut out = DB_DATA_DIR.to_owned();
        string_push_str(&mut out, "/");
        string_push_str(&mut out, self.col_name.as_str());
        string_push_str(&mut out, "_");
        push_decimal(&mut out, (self.col_id + 1) as usize);
        out
    }
}

/// Types a column can hold, with the column type they stand for.
pub trait ColType: Sized {
    spec fn spec_col_type() -> AllowedColTypes;

    fn col_type() -> (r: AllowedColTypes)
        ensures
            r == Self::spec_col_type(),
    ;
}

impl ColType for i64 {
    open spec fn spec_col_type() -> AllowedColTypes {
        AllowedColTypes::IntType
    }

    fn col_type() -> (r: AllowedColTypes) {
        AllowedColTypes::IntType
    }
}

impl ColType for String {
    open spec fn spec_col_type() -> AllowedColTypes {
        AllowedColTypes::StrType
    }

    fn col_type() -> (r: AllowedColTypes) {
        AllowedColTypes::StrType
    }
}

} // verus!

//! The header at the start of every column data file.
use vstd::prelude::*;
use vstd::utf8::{encode_utf8, is_ascii_chars};
use crate::db::constants::{LogicalColType, col_type_code, DB_DATA_DIR, MAGIC_WORD, MAX_FILE_SIZE, MAX_COL_NAME_LEN};
use crate::db::errors::DbError;
use crate::db::storage::bytes_be::{lemma_be_roundtrip, be_u16_at, be_u32_at, push_be_u16, push_be_u32, read_be_u16, read_be_u32, u16_be_bytes, u32_be_bytes};
use crate::db::storage::string_handlers::{check_col_name_correctness, col_name_error_is, col_name_valid, read_str_run, read_string_from_buf, ReadStrStop, StrLenCheckType};
use crate::db::storage::text::{lemma_byte_len_push_ascii, byte_len, decimal_text, lemma_encode_utf8_concat, push_decimal, str_byte_len};
use crate::external::std_text::string_push_str;

verus! {

/// Bytes of the fixed part of a header plus one name character and the null
/// byte.
pub const COL_HEADER_MIN_SIZE: usize = 14;
/// Offset of the overflow flag in a column file.
pub const COL_HEADER_OVERFLOW_OFFSET: u64 = 7;
/// Offset of the data size in a column file.
pub const COL_HEADER_DATA_SIZE_OFFSET: u64 = 8;

/// The content of a column header.
pub ghost struct ColHeaderView {
    pub magic_word: u32,
    pub col_id: u16,
    pub col_type: LogicalColType,
    pub is_overflow: bool,
    pub size_of_data: u32,
    pub col_name: Seq<char>,
}

/// Header of a column file: which column, which of its files (`col_id`),
/// the column type, whether more files follow, and how many data bytes the
/// file holds after the header.
pub struct ColHeader {
    magic_word: u32,
    col_id: u16,
    col_type: LogicalColType,
    is_overflow: bool,
    size_of_data: u32,
    col_name: String,
}

impl View for ColHeader {
    type V = ColHeaderView;

    closed spec fn view(&self) -> ColHeaderView {
        ColHeaderView {
            magic_word: self.magic_word,
            col_id: self.col_id,
            col_type: self.col_type,
            is_overflow: self.is_overflow,
            size_of_data: self.size_of_data,
            col_name: self.col_name@,
        }
    }
}

/// A header built from these values, with the magic word of the format.
pub open spec fn header_of(
    col_id: u16,
    col_type: LogicalColType,
    is_overflow: bool,
    size_of_data: u32,
    col_name: Seq<char>,
) -> ColHeaderView {
    ColHeaderView { magic_word: MAGIC_WORD, col_id, col_type, is_overflow, size_of_data, col_name }
}

/// The bytes of a header as kept at the start of a column file: magic word,
/// file id, type code, overflow flag, data size (all big-endian), then the
/// column name and a null byte.
pub open spec fn header_bytes(h: ColHeaderView) -> Seq<u8> {
    u32_be_bytes(h.magic_word) + u16_be_bytes(h.col_id) + seq![col_type_code(h.col_type)] + seq![
        if h.is_overflow { 1u8 } else { 0u8 },
    ] + u32_be_bytes(h.size_of_data) + encode_utf8(h.col_name) + seq![0u8]
}

/// Why a header could not be read from a buffer.
pub enum HeaderParseError {
    IndexPastData,
    TooShort,
    BadMagic,
    BadType,
    NameNotAscii,
    NameTooLong,
    BadName,
}

/// The type whose code is `b` (meaningful for `b <= 1`).
pub open spec fn col_type_of_code(b: u8) -> LogicalColType {
    if b == 0 { LogicalColType::INT64 } else { LogicalColType::VARCHAR }
}

/// Reading a header from the first `bytes_read` bytes of `buf`, with the
/// read index at `idx`: the header (or why not) and the index afterwards.
/// The fixed fields are taken from the start of `buf`, the name from byte 12
/// up to a null byte or the end of the valid bytes.
pub open spec fn parse_header(idx: int, bytes_read: int, buf: Seq<u8>) -> (
    Result<ColHeaderView, HeaderParseError>,
    int,
) {
    if bytes_read < idx {
        (Err(HeaderParseError::IndexPastData), idx)
    } else if bytes_read - idx < COL_HEADER_MIN_SIZE {
        (Err(HeaderParseError::TooShort), idx)
    } else if be_u32_at(buf, 0) != MAGIC_WORD {
        (Err(HeaderParseError::BadMagic), idx)
    } else if buf[6] > 1 {
        (Err(HeaderParseError::BadType), idx)
    } else {
        let (stop, i2, name) = read_str_run(12, bytes_read, buf, Seq::empty(), Some(MAX_COL_NAME_LEN as nat));
        match stop {
            ReadStrStop::NonAscii => (Err(HeaderParseError::NameNotAscii), i2),
            ReadStrStop::TooLong => (Err(HeaderParseError::NameTooLong), i2),
            _ => if col_name_valid(name) {
                (
                    Ok(
                        ColHeaderView {
                            magic_word: MAGIC_WORD,
                            col_id: be_u16_at(buf, 4),
                            col_type: col_type_of_code(buf[6]),
                            is_overflow: buf[7] == 1,
                            size_of_data: be_u32_at(buf, 8),
                            col_name: name,
                        },
                    ),
                    i2,
                )
            } else {
                (Err(HeaderParseError::BadName), i2)
            },
        }
    }
}

/// The error value a parse failure is reported with.
pub open spec fn header_error_matches(e: HeaderParseError, err: DbError, buf: Seq<u8>, bytes_read: int) -> bool {
    match e {
        HeaderParseError::IndexPastData => err is Other,
        HeaderParseError::TooShort => err is SizeMismatch,
        HeaderParseError::BadMagic => err is Other,
        HeaderParseError::BadType => err is UnsupportedType,
        HeaderParseError::NameNotAscii => err is InternalDbError,
        HeaderParseError::NameTooLong => err is SizeExceeded,
        HeaderParseError::BadName => col_name_error_is(
            read_str_run(12, bytes_read, buf, Seq::empty(), Some(MAX_COL_NAME_LEN as nat)).2,
            err,
        ),
    }
}

/// `DB_DATA_DIR/name_id`.
pub open spec fn data_file_path(col_name: Seq<char>, col_id: nat) -> Seq<char> {
    "./db_data"@ + "/"@ + col_name + "_"@ + decimal_text(col_id)
}

impl ColHeader {
    #[verifier::type_invariant]
    spec fn name_is_valid(&self) -> bool {
        col_name_valid(self.col_name@)
    }

    pub fn new(
        col_id: u16,
        col_type: LogicalColType,
        is_overflow: bool,
        size_of_data: u32,
        col_name: String,
    ) -> (r: Result<ColHeader, DbError>)
        ensures
            r is Ok <==> col_name_valid(col_name@),
            r matches Ok(h) ==> h@ == header_of(col_id, col_type, is_overflow, size_of_data, col_name@),
            r matches Err(e) ==> col_name_error_is(col_name@, e),
    {
        check_col_name_correctness(&col_name)?;
        Ok(ColHeader { magic_word: MAGIC_WORD, col_id, col_type, is_overflow, size_of_data, col_name })
    }

    /// The first file of a column: id 0, no overflow, no data.
    pub fn new_empty(col_type: LogicalColType, col_name: String) -> (r: Result<ColHeader, DbError>)
        ensures
            r is Ok <==> col_name_valid(col_name@),
            r matches Ok(h) ==> h@ == header_of(0, col_type, false, 0, col_name@),
            r matches Err(e) ==> col_name_error_is(col_name@, e),
    {
        ColHeader::new(0, col_type, false, 0, col_name)
    }

    /// The header of the next file of the same column: id one higher, no
    /// overflow, no data.
    pub fn create_next(&self) -> (r: Result<ColHeader, DbError>)
        requires
            self@.col_id < u16::MAX,
        ensures
            r is Ok,
            r matches Ok(h) ==> h@ == header_of(
                (self@.col_id + 1) as u16,
                self@.col_type,
                false,
                0,
                self@.col_name,
            ),
    {
        proof {
            use_type_invariant(self);
        }
        ColHeader::new(self.col_id + 1, self.col_type, false, 0, self.col_name.clone())
    }

    /// Reads a header from `buf` (its first `bytes_read` bytes are valid)
    /// with the read index at `*curr_buf_idx`; the index ends after the name
    /// (see [`parse_header`]).
    pub fn create_header_from_buf(curr_buf_idx: &mut usize, bytes_read: usize, buf: &[u8]) -> (r:
        Result<ColHeader, DbError>)
        requires
            bytes_read <= buf@.len(),
        ensures
            ({
                let (res, i2) = parse_header(*old(curr_buf_idx) as int, bytes_read as int, buf@);
                &&& *final(curr_buf_idx) == i2
                &&& match res {
                    Ok(v) => r matches Ok(h) && h@ == v,
                    Err(e) => r matches Err(err) && header_error_matches(e, err, buf@, bytes_read as int),
                }
            }),
    {
        if bytes_read < *curr_buf_idx {
            return Err(DbError::Other(
                "ColHeader::create_header_from_buf - buffer index exceeds bytes read".to_string(),
            ));
        }
        let remaining_bytes = bytes_read - *curr_buf_idx;
        if remaining_bytes < COL_HEADER_MIN_SIZE {
            return Err(DbError::SizeMismatch {
                msg: "ColHeader::create_header_from_buf - insufficient bytes to read header".to_string(),
                size_1: remaining_bytes,
                size_2: COL_HEADER_MIN_SIZE,
            });
        }
        let magic_word = read_be_u32(buf, 0);
        if magic_word != MAGIC_WORD {
            return Err(DbError::Other(
                "ColHeader::read_from_buf - invalid magic word".to_string(),
            ));
        }
        let col_id = read_be_u16(buf, 4);
        let col_type = match LogicalColType::from_u8(buf[6]) {
            Ok(t) => t,
            Err(_) => {
                return Err(DbError::UnsupportedType(
                    "ColHeader::read_from_buf - got neither 0 nor 1 as column type".to_string(),
                ));
            },
        };
        let is_overflow: bool = buf[7] == 1;
        let size_of_data = read_be_u32(buf, 8);
        *curr_buf_idx = 12;
        let mut res_str = String::new();
        read_string_from_buf(curr_buf_idx, bytes_read, buf, &mut res_str, StrLenCheckType::ColNameLenCheck)?;
        check_col_name_correctness(&res_str)?;
        Ok(ColHeader { magic_word, col_id, col_type, is_overflow, size_of_data, col_name: res_str })
    }

    /// Accounts for `new_data_len` more bytes in this file. If they do not
    /// fit under [`MAX_FILE_SIZE`], the file is marked as overflowing, its
    /// size becomes the maximum, and the free space it had is returned as the
    /// error.
    pub fn increase_data_size(&mut self, new_data_len: u32) -> (r: Result<(), usize>)
        requires
            old(self)@.size_of_data <= MAX_FILE_SIZE,
        ensures
            old(self)@.size_of_data + new_data_len <= MAX_FILE_SIZE ==> r is Ok && final(self)@ == (
            ColHeaderView { size_of_data: (old(self)@.size_of_data + new_data_len) as u32, ..old(self)@ }),
            old(self)@.size_of_data + new_data_len > MAX_FILE_SIZE ==> r == Err::<(), usize>(
                (MAX_FILE_SIZE - old(self)@.size_of_data) as usize,
            ) && final(self)@ == (ColHeaderView {
                size_of_data: MAX_FILE_SIZE,
                is_overflow: true,
                ..old(self)@
            }),
    {
        proof {
            use_type_invariant(&*self);
        }
        match self.size_of_data.checked_add(new_data_len) {
            None => {
                self.is_overflow = true;
                let available_free_space = MAX_FILE_SIZE - self.size_of_data;
                self.size_of_data = MAX_FILE_SIZE;
                Err(available_free_space as usize)
            },
            Some(new_size) => {
                if new_size <= MAX_FILE_SIZE {
                    self.size_of_data = new_size;
                    Ok(())
                } else {
                    self.is_overflow = true;
                    let available_free_space = MAX_FILE_SIZE - self.size_of_data;
                    self.size_of_data = MAX_FILE_SIZE;
                    Err(available_free_space as usize)
                }
            },
        }
    }

    /// The bytes written at the start of a new column file. A header whose
    /// data size would take the file past [`MAX_FILE_SIZE`] is refused.
    pub fn encode_for_file(&self) -> (r: Result<Vec<u8>, DbError>)
        ensures
            self@.size_of_data + 13 + byte_len(self@.col_name) > MAX_FILE_SIZE <==> r is Err,
            r is Err ==> r->Err_0 is SizeExceeded,
            r matches Ok(v) ==> v@ == header_bytes(self@),
            col_name_valid(self@.col_name),
    {
        proof {
            use_type_invariant(self);
        }
        let header_size: usize = 13 + str_byte_len(self.col_name.as_str());
        if MAX_FILE_SIZE - (header_size as u32) < self.size_of_data {
            return Err(DbError::SizeExceeded {
                msg: "ColHeader::save_to_file - size_of_data + header size exceeds MAX_FILE_SIZE".to_string(),
                max: MAX_FILE_SIZE as usize,
            });
        }
        let mut out: Vec<u8> = Vec::new();
        push_be_u32(&mut out, self.magic_word);
        push_be_u16(&mut out, self.col_id);
        out.push(self.col_type.to_u8());
        out.push(if self.is_overflow { 1u8 } else { 0u8 });
        push_be_u32(&mut out, self.size_of_data);
        let mut name = vstd::slice::slice_to_vec(self.col_name.as_str().as_bytes());
        out.append(&mut name);
        out.push(0u8);
        proof {
            assert(out@ =~= header_bytes(self@));
        }
        Ok(out)
    }

    /// The path of this header's file in `dir_path`: `dir_path/name_id`, or
    /// `dir_pathname_id` when `dir_path` already ends with a slash. An empty
    /// directory path is refused.
    pub fn file_name_in(&self, dir_path: &str) -> (r: Result<String, DbError>)
        ensures
            dir_path@.len() == 0 <==> r is Err,
            r is Err ==> r->Err_0 is Other,
            r matches Ok(s) ==> s@ == (if dir_path@.last() as u32 == '/' as u32 { dir_path@ } else { dir_path@ + "/"@ })
                + self@.col_name + "_"@ + decimal_text(self@.col_id as nat),
    {
        let n = str_byte_len(dir_path);
        if n == 0 {
            return Err(DbError::Other("ColHeader::save_to_file - directory path is empty".to_string()));
        }
        let mut out = dir_path.to_owned();
        let ends_with_slash = path_ends_with_slash(dir_path);
        if !ends_with_slash {
            string_push_str(&mut out, "/");
        }
        string_push_str(&mut out, self.col_name.as_str());
        string_push_str(&mut out, "_");
        push_decimal(&mut out, self.col_id as usize);
        Ok(out)
    }

    pub fn col_id(&self) -> (r: u16)
        ensures
            r == self@.col_id,
    {
        self.col_id
    }

    pub fn col_type(&self) -> (r: LogicalColType)
        ensures
            r == self@.col_type,
    {
        self.col_type
    }

    pub fn is_overflow(&self) -> (r: bool)
        ensures
            r == self@.is_overflow,
    {
        self.is_overflow
    }

    pub fn size_of_data(&self) -> (r: u32)
        ensures
            r == self@.size_of_data,
    {
        self.size_of_data
    }

    pub fn col_name(&self) -> (r: &String)
        ensures
            r@ == self@.col_name,
    {
        &self.col_name
    }

    /// `DB_DATA_DIR/name_id`.
    pub fn get_file_path(&self) -> (r: String)
        ensures
            r@ == data_file_path(self@.col_name, self@.col_id as nat),
    {
        let mut out = DB_DATA_DIR.to_owned();
        string_push_str(&mut out, "/");
        string_push_str(&mut out, self.col_name.as_str());
        string_push_str(&mut out, "_");
        push_decimal(&mut out, self.col_id as usize);
        out
    }

    /// The path of the next file of the column, which exists only when this
    /// file overflows.
    pub fn get_next_file_path(&self) -> (r: Result<String, DbError>)
        requires
            self@.is_overflow ==> self@.col_id < u16::MAX,
        ensures
            self@.is_overflow <==> r is Ok,
            r is Err ==> r->Err_0 is Other,
            r matches Ok(s) ==> s@ == data_file_path(self@.col_name, self@.col_id as nat + 1),
    {
        if self.is_overflow {
            let mut out = DB_DATA_DIR.to_owned();
            string_push_str(&mut out, "/");
            string_push_str(&mut out, self.col_name.as_str());
            string_push_str(&mut out, "_");
            push_decimal(&mut out, (self.col_id + 1) as usize);
            return Ok(out);
        }
        Err(DbError::Other(
            "There is no next file path since there is no overflow in current file".to_string(),
        ))
    }
}

/// Reading an ASCII name without null characters that is followed by a
/// null byte stops at that byte, with the name read whole.
pub proof fn lemma_read_name(b: Seq<u8>, p: int, end: int, acc: Seq<char>, name: Seq<char>, limit: nat)
    requires
        0 <= p,
        p + name.len() < end <= b.len(),
        is_ascii_chars(name),
        forall|i: int| 0 <= i < name.len() ==> name[i] as u32 != 0,
        forall|i: int| 0 <= i < name.len() ==> b[p + i] == name[i] as u8,
        b[p + name.len()] == 0,
        byte_len(acc + name) <= limit,
        is_ascii_chars(acc),
    ensures
        read_str_run(p, end, b, acc, Some(limit)) == (ReadStrStop::Terminated, p + name.len() + 1, acc + name),
    decreases name.len(),
{
    if name.len() == 0 {
        assert(acc + name =~= acc);
    } else {
        let c = name[0];
        assert(b[p] == c as u8);
        assert((c as u32) < 128);
        assert(b[p] != 0 && b[p] < 128);
        assert((b[p] as char) == c) by {
            assert(b[p] as u32 == c as u32);
        };
        let acc2 = acc.push(c);
        let rest = name.drop_first();
        assert(acc2 + rest =~= acc + name);
        lemma_byte_len_push_ascii(acc, c);
        assert(is_ascii_chars(acc2)) by {
            assert forall|i: int| 0 <= i < acc2.len() implies '\0' <= #[trigger] acc2[i] <= '\u{7f}' by {
                if i < acc.len() {
                    assert(acc2[i] == acc[i]);
                }
            }
        }
        assert(byte_len(acc2) <= byte_len(acc + name)) by {
            lemma_byte_len_prefix(acc2, rest);
        }
        assert forall|i: int| 0 <= i < rest.len() implies b[(p + 1) + i] == rest[i] as u8 by {
            assert(rest[i] == name[i + 1]);
        }
        lemma_read_name(b, p + 1, end, acc2, rest, limit);
    }
}

proof fn lemma_byte_len_prefix(a: Seq<char>, b: Seq<char>)
    ensures
        byte_len(a) <= byte_len(a + b),
{
    crate::db::storage::text::lemma_encode_utf8_concat(a, b);
}

/// A header written by [`ColHeader::encode_for_file`] reads back unchanged:
/// parsing its bytes, whatever follows them, gives the same header and
/// leaves the index just after the name's null byte.
pub proof fn lemma_header_roundtrip(h: ColHeaderView, rest: Seq<u8>)
    requires
        h.magic_word == MAGIC_WORD,
        col_name_valid(h.col_name),
        h.col_name.len() >= 1,
        forall|i: int| 0 <= i < h.col_name.len() ==> h.col_name[i] as u32 != 0,
    ensures
        ({
            let b = header_bytes(h) + rest;
            parse_header(0, b.len() as int, b) == (
                Ok::<ColHeaderView, HeaderParseError>(h),
                header_bytes(h).len() as int,
            )
        }),
{
    let name = h.col_name;
    let nb = encode_utf8(name);
    vstd::utf8::is_ascii_chars_encode_utf8(name);
    let ov: u8 = if h.is_overflow { 1u8 } else { 0u8 };
    let b = header_bytes(h) + rest;
    let p1 = u32_be_bytes(h.magic_word);
    let p2 = p1 + u16_be_bytes(h.col_id);
    let p3 = p2 + seq![col_type_code(h.col_type)] + seq![ov];
    lemma_be_roundtrip(Seq::empty(), h.magic_word, 0, u16_be_bytes(h.col_id) + seq![col_type_code(h.col_type)] + seq![ov] + u32_be_bytes(h.size_of_data) + nb + seq![0u8] + rest);
    assert(b =~= Seq::<u8>::empty() + u32_be_bytes(h.magic_word) + (u16_be_bytes(h.col_id) + seq![col_type_code(h.col_type)] + seq![ov] + u32_be_bytes(h.size_of_data) + nb + seq![0u8] + rest));
    lemma_be_roundtrip(p1, 0, h.col_id, seq![col_type_code(h.col_type)] + seq![ov] + u32_be_bytes(h.size_of_data) + nb + seq![0u8] + rest);
    assert(b =~= p1 + u16_be_bytes(h.col_id) + (seq![col_type_code(h.col_type)] + seq![ov] + u32_be_bytes(h.size_of_data) + nb + seq![0u8] + rest));
    lemma_be_roundtrip(p3, h.size_of_data, 0, nb + seq![0u8] + rest);
    assert(b =~= p3 + u32_be_bytes(h.size_of_data) + (nb + seq![0u8] + rest));
    assert(b[6] == col_type_code(h.col_type));
    assert(b[7] == ov);
    assert(col_type_of_code(b[6]) == h.col_type);
    let n = name.len() as int;
    assert forall|i: int| 0 <= i < n implies b[12 + i] == name[i] as u8 by {
        assert(b[12 + i] == nb[i]);
    }
    assert(b[12 + n] == 0);
    assert(Seq::<char>::empty() + name =~= name);
    assert(is_ascii_chars(Seq::<char>::empty()));
    lemma_read_name(b, 12, b.len() as int, Seq::empty(), name, MAX_COL_NAME_LEN as nat);
}

/// Whether the last character of a non-empty path is a slash.
pub fn path_ends_with_slash(p: &str) -> (r: bool)
    requires
        p@.len() > 0,
    ensures
        r == (p@.last() as u32 == '/' as u32),
{
    let bytes = p.as_bytes();
    proof {
        vstd::string::is_ascii_spec_bytes(p);
    }
    // the last byte of UTF-8 text is '/' exactly when its last character is
    let last = bytes[bytes.len() - 1];
    proof {
        lemma_last_byte_slash(p@);
    }
    last == 47u8
}

proof fn lemma_last_byte_slash(s: Seq<char>)
    requires
        s.len() > 0,
    ensures
        encode_utf8(s).len() > 0,
        (encode_utf8(s).last() == 47u8) == (s.last() as u32 == '/' as u32),
{
    let init = s.drop_last();
    let c = s.last();
    assert(s =~= init + seq![c]);
    lemma_encode_utf8_concat(init, seq![c]);
    assert(seq![c].drop_first() =~= Seq::<char>::empty());
    let e = vstd::utf8::encode_scalar(c as u32);
    assert(encode_utf8(seq![c]) == e + encode_utf8(Seq::<char>::empty()));
    assert(encode_utf8(seq![c]) =~= e);
    assert(encode_utf8(s).last() == e.last());
    let v = c as u32;
    if v <= 0x7f {
        assert((v & 0x7f) as u8 == v as u8) by (bit_vector)
            requires
                v <= 0x7f,
        ;
        assert(e.last() == v as u8);
        assert('/' as u32 == 47);
        assert(v < 256);
        assert((v as u8 == 47u8) == (v == 47));
    } else {
        assert((0x80 | (v & 0x3F) as u8) >= 128) by (bit_vector);
        assert(e.last() >= 128);
    }
}

} // verus!

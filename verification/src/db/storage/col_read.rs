//! Reading column data back from the bytes of its files: the decoding state
//! machines for integer and string columns, fed one byte at a time, and the
//! bookkeeping of file headers and data sizes while the files are read.
use vstd::prelude::*;
use vstd::arithmetic::power2::pow2;
use crate::db::constants::BUF_SIZE;
use crate::db::errors::DbError;
use crate::db::storage::bytes_be::{be_u16_at, be_u32_at, read_be_u16, read_be_u32};
use crate::db::storage::col_data::{joined_bytes, str_batch_bytes, ColData, ColDataView};
use crate::db::storage::bytes_be::{lemma_be_roundtrip, u32_be_bytes};
use crate::db::constants::ZSTD_ENCODE_LEVEL;
use crate::external::zstd_api::zstd_compressed;
use vstd::utf8::{encode_utf8, is_ascii_chars};
use crate::db::storage::col_header::{parse_header, header_error_matches, ColHeader, ColHeaderView};
use crate::db::storage::encoders::{unzigzag, vle_decode_i, vle_decode_u, vle_value};
use crate::external::std_text::string_push;
use crate::external::zstd_api::{zstd_decode_all, zstd_decoded};

verus! {

/// Whether the decoder expects a size field or data bytes.
pub enum ReadStage {
    SizeStage,
    DataStage,
}

// ---------------------------------------------------------------------------
// Integer columns
// ---------------------------------------------------------------------------

/// State of the integer column decoder.
pub ghost struct IntDecodeView {
    pub stage: ReadStage,
    /// bytes of the field being read
    pub bytes: Seq<u8>,
    /// the next value is a batch's minimum
    pub first_value: bool,
    pub min_val: i64,
    pub n_rows_in_batch: nat,
    pub curr_batch_size: u16,
    pub values: Seq<i64>,
}

/// The decoder before any byte.
pub open spec fn int_decode_start() -> IntDecodeView {
    IntDecodeView {
        stage: ReadStage::SizeStage,
        bytes: Seq::empty(),
        first_value: true,
        min_val: 0,
        n_rows_in_batch: 0,
        curr_batch_size: 0,
        values: Seq::empty(),
    }
}

/// One byte of integer column data. A batch starts with its row count (two
/// bytes, big-endian); then come variable-length values, each ended by a
/// byte below 128: first the batch minimum (ZigZag), then one distance from
/// the minimum per row. After as many rows as the count, the next batch
/// starts. `None`: a value longer than ten bytes, or a row outside `i64`.
pub open spec fn int_decode_step(s: IntDecodeView, b: u8) -> Option<IntDecodeView> {
    let bytes = s.bytes.push(b);
    match s.stage {
        ReadStage::SizeStage => if bytes.len() == 2 {
            Some(
                IntDecodeView {
                    curr_batch_size: be_u16_at(bytes, 0),
                    stage: ReadStage::DataStage,
                    bytes: Seq::empty(),
                    ..s
                },
            )
        } else {
            Some(IntDecodeView { bytes, ..s })
        },
        ReadStage::DataStage => if b >= 128 {
            Some(IntDecodeView { bytes, ..s })
        } else if bytes.len() > 10 {
            None
        } else {
            let raw = vle_value(bytes) % pow2(64);
            if s.first_value {
                Some(
                    IntDecodeView {
                        min_val: unzigzag(raw) as i64,
                        first_value: false,
                        bytes: Seq::empty(),
                        ..s
                    },
                )
            } else {
                let v = ((raw as u64) as i64) + s.min_val;
                if v < i64::MIN || v > i64::MAX {
                    None
                } else if s.n_rows_in_batch + 1 == s.curr_batch_size {
                    Some(
                        IntDecodeView {
                            values: s.values.push(v as i64),
                            n_rows_in_batch: 0,
                            stage: ReadStage::SizeStage,
                            first_value: true,
                            bytes: Seq::empty(),
                            ..s
                        },
                    )
                } else {
                    Some(
                        IntDecodeView {
                            values: s.values.push(v as i64),
                            n_rows_in_batch: s.n_rows_in_batch + 1,
                            bytes: Seq::empty(),
                            ..s
                        },
                    )
                }
            }
        },
    }
}

/// The integer decoder after the bytes `data`, one at a time.
pub open spec fn int_decode_run(s: IntDecodeView, data: Seq<u8>) -> Option<IntDecodeView>
    decreases data.len(),
{
    if data.len() == 0 {
        Some(s)
    } else {
        match int_decode_run(s, data.drop_last()) {
            Some(t) => int_decode_step(t, data.last()),
            None => None,
        }
    }
}

/// Feeding two runs of bytes is feeding their concatenation.
pub proof fn lemma_int_decode_run_concat(s: IntDecodeView, a: Seq<u8>, b: Seq<u8>)
    ensures
        int_decode_run(s, a + b) == (match int_decode_run(s, a) {
            Some(t) => int_decode_run(t, b),
            None => None,
        }),
    decreases b.len(),
{
    if b.len() == 0 {
        assert(a + b =~= a);
    } else {
        lemma_int_decode_run_concat(s, a, b.drop_last());
        assert((a + b).drop_last() =~= a + b.drop_last());
        assert((a + b).last() == b.last());
    }
}

/// Decoder of integer column data.
pub struct IntDecoder {
    stage: ReadStage,
    bytes: Vec<u8>,
    first_value: bool,
    min_val: i64,
    n_rows_in_batch: usize,
    curr_batch_size: u16,
    values: Vec<i64>,
}

impl View for IntDecoder {
    type V = IntDecodeView;

    closed spec fn view(&self) -> IntDecodeView {
        IntDecodeView {
            stage: self.stage,
            bytes: self.bytes@,
            first_value: self.first_value,
            min_val: self.min_val,
            n_rows_in_batch: self.n_rows_in_batch as nat,
            curr_batch_size: self.curr_batch_size,
            values: self.values@,
        }
    }
}

impl IntDecoder {
    /// The rows of the current batch are among the values decoded.
    pub closed spec fn wf(&self) -> bool {
        self.n_rows_in_batch <= self.values@.len()
    }

    pub fn new() -> (r: IntDecoder)
        ensures
            r@ == int_decode_start(),
            r.wf(),
    {
        IntDecoder {
            stage: ReadStage::SizeStage,
            bytes: Vec::new(),
            first_value: true,
            min_val: 0,
            n_rows_in_batch: 0,
            curr_batch_size: 0,
            values: Vec::new(),
        }
    }

    /// Decodes one byte; a value that cannot be decoded is a decompression
    /// error.
    pub fn push_byte(&mut self, b: u8) -> (r: Result<(), DbError>)
        requires
            old(self).wf(),
        ensures
            final(self).wf(),
            match int_decode_step(old(self)@, b) {
                Some(s) => r is Ok && final(self)@ == s,
                None => r is Err && r->Err_0 is DecompressionError,
            },
    {
        self.bytes.push(b);
        match self.stage {
            ReadStage::SizeStage => {
                if self.bytes.len() == 2 {
                    self.curr_batch_size = read_be_u16(self.bytes.as_slice(), 0);
                    self.stage = ReadStage::DataStage;
                    self.bytes = Vec::new();
                }
                Ok(())
            },
            ReadStage::DataStage => {
                if b >= 128 {
                    return Ok(());
                }
                if self.bytes.len() > 10 {
                    return Err(DbError::DecompressionError(
                        "ColData<i64>::read_from_file - encoded value longer than ten bytes".to_string(),
                    ));
                }
                if self.first_value {
                    let v = vle_decode_i(&self.bytes);
                    self.min_val = v;
                    self.first_value = false;
                    self.bytes = Vec::new();
                    return Ok(());
                }
                let raw = vle_decode_u(&self.bytes);
                let delta: i64 = raw as i64;
                let v = match delta.checked_add(self.min_val) {
                    Some(v) => v,
                    None => {
                        return Err(DbError::DecompressionError(
                            "ColData<i64>::read_from_file - decoded value does not fit into i64".to_string(),
                        ));
                    },
                };
                self.bytes = Vec::new();
                self.values.push(v);
                let n_values = self.values.len();
                assert(self.n_rows_in_batch < n_values);
                let n = self.n_rows_in_batch + 1;
                if n == self.curr_batch_size as usize {
                    self.stage = ReadStage::SizeStage;
                    self.n_rows_in_batch = 0;
                    self.first_value = true;
                } else {
                    self.n_rows_in_batch = n;
                }
                Ok(())
            },
        }
    }

    /// Decodes the bytes of `data` from `from` on.
    pub fn push_bytes(&mut self, data: &[u8], from: usize) -> (r: Result<(), DbError>)
        requires
            from <= data@.len(),
            old(self).wf(),
        ensures
            final(self).wf(),
            match int_decode_run(old(self)@, data@.subrange(from as int, data@.len() as int)) {
                Some(s) => r is Ok && final(self)@ == s,
                None => r is Err && r->Err_0 is DecompressionError,
            },
    {
        let mut i = from;
        proof {
            assert(data@.subrange(from as int, from as int) =~= Seq::<u8>::empty());
        }
        while i < data.len()
            invariant
                from <= i <= data@.len(),
                self.wf(),
                int_decode_run(old(self)@, data@.subrange(from as int, i as int)) == Some(self@),
            decreases data@.len() - i,
        {
            let ghost before = self@;
            let res = self.push_byte(data[i]);
            proof {
                let t = data@.subrange(from as int, i + 1);
                assert(t.drop_last() =~= data@.subrange(from as int, i as int));
                assert(t.last() == data@[i as int]);
            }
            if res.is_err() {
                proof {
                    lemma_int_decode_run_stays_none(old(self)@, data@.subrange(from as int, i + 1), data@.subrange(i + 1, data@.len() as int));
                    assert(data@.subrange(from as int, i + 1) + data@.subrange(i + 1, data@.len() as int) =~= data@.subrange(from as int, data@.len() as int));
                }
                return res;
            }
            i = i + 1;
        }
        Ok(())
    }

    /// The values decoded so far.
    pub fn into_values(self) -> (r: Vec<i64>)
        ensures
            r@ == self@.values,
    {
        self.values
    }
}

proof fn lemma_int_decode_run_stays_none(s: IntDecodeView, a: Seq<u8>, b: Seq<u8>)
    requires
        int_decode_run(s, a) is None,
    ensures
        int_decode_run(s, a + b) is None,
    decreases b.len(),
{
    if b.len() > 0 {
        lemma_int_decode_run_stays_none(s, a, b.drop_last());
        assert((a + b).drop_last() =~= a + b.drop_last());
    } else {
        assert(a + b =~= a);
    }
}

// ---------------------------------------------------------------------------
// String columns
// ---------------------------------------------------------------------------

/// State of the string column decoder.
pub ghost struct StrDecodeView {
    pub stage: ReadStage,
    /// bytes of the field being read
    pub bytes: Seq<u8>,
    pub n_bytes: nat,
    /// length of the current zstd frame
    pub frame_size: u32,
    pub values: Seq<Seq<char>>,
    pub n_rows: nat,
}

/// The decoder before any byte.
pub open spec fn str_decode_start() -> StrDecodeView {
    StrDecodeView {
        stage: ReadStage::SizeStage,
        bytes: Seq::empty(),
        n_bytes: 0,
        frame_size: 0,
        values: Seq::empty(),
        n_rows: 0,
    }
}

/// The pieces of `s` between null bytes (one more piece than null bytes).
pub open spec fn split_at_zero(s: Seq<u8>) -> Seq<Seq<u8>>
    decreases s.len(),
{
    if s.len() == 0 {
        seq![Seq::empty()]
    } else {
        let p = split_at_zero(s.drop_last());
        if s.last() == 0 {
            p.push(Seq::empty())
        } else {
            p.update(p.len() - 1, p.last().push(s.last()))
        }
    }
}

/// Whether all bytes are ASCII.
pub open spec fn ascii_bytes(s: Seq<u8>) -> bool {
    forall|i: int| 0 <= i < s.len() ==> s[i] < 128
}

/// The characters of ASCII bytes.
pub open spec fn bytes_chars(s: Seq<u8>) -> Seq<char> {
    s.map_values(|b: u8| b as char)
}

/// The strings of a decompressed frame: its pieces between null bytes.
pub open spec fn frame_strings(out: Seq<u8>) -> Seq<Seq<char>> {
    split_at_zero(out).map_values(|p: Seq<u8>| bytes_chars(p))
}

/// One byte of string column data. A frame starts with its length (four
/// bytes, big-endian) and holds zstd-compressed strings joined with null
/// bytes. When as many bytes as the last frame length have been read (this
/// test is made in both stages, as the format's reader makes it), the bytes
/// are decompressed and their strings appended. `None`: a frame that does
/// not decompress or holds bytes that are not ASCII, or a field longer than
/// `u32::MAX` bytes.
pub open spec fn str_decode_step(s: StrDecodeView, b: u8) -> Option<StrDecodeView> {
    let bytes = s.bytes.push(b);
    let n = s.n_bytes + 1;
    if n > u32::MAX {
        None
    } else if s.stage is SizeStage && n == 4 {
        Some(
            StrDecodeView {
                frame_size: be_u32_at(bytes, 0),
                n_bytes: 0,
                stage: ReadStage::DataStage,
                bytes: Seq::empty(),
                ..s
            },
        )
    } else if n == s.frame_size {
        match zstd_decoded(bytes) {
            None => None,
            Some(out) => if !ascii_bytes(out) {
                None
            } else {
                let parts = frame_strings(out);
                Some(
                    StrDecodeView {
                        values: s.values + parts,
                        n_rows: s.n_rows + parts.len(),
                        n_bytes: 0,
                        stage: ReadStage::SizeStage,
                        bytes: Seq::empty(),
                        ..s
                    },
                )
            },
        }
    } else {
        Some(StrDecodeView { bytes, n_bytes: n, ..s })
    }
}

/// The string decoder after the bytes `data`, one at a time.
pub open spec fn str_decode_run(s: StrDecodeView, data: Seq<u8>) -> Option<StrDecodeView>
    decreases data.len(),
{
    if data.len() == 0 {
        Some(s)
    } else {
        match str_decode_run(s, data.drop_last()) {
            Some(t) => str_decode_step(t, data.last()),
            None => None,
        }
    }
}

/// Feeding two runs of bytes is feeding their concatenation.
pub proof fn lemma_str_decode_run_concat(s: StrDecodeView, a: Seq<u8>, b: Seq<u8>)
    ensures
        str_decode_run(s, a + b) == (match str_decode_run(s, a) {
            Some(t) => str_decode_run(t, b),
            None => None,
        }),
    decreases b.len(),
{
    if b.len() == 0 {
        assert(a + b =~= a);
    } else {
        lemma_str_decode_run_concat(s, a, b.drop_last());
        assert((a + b).drop_last() =~= a + b.drop_last());
        assert((a + b).last() == b.last());
    }
}

proof fn lemma_split_at_zero_nonempty(s: Seq<u8>)
    ensures
        split_at_zero(s).len() >= 1,
    decreases s.len(),
{
    if s.len() > 0 {
        lemma_split_at_zero_nonempty(s.drop_last());
    }
}

/// The views of a sequence of strings.
pub open spec fn views_of(s: Seq<String>) -> Seq<Seq<char>> {
    s.map_values(|x: String| x@)
}

/// Splits ASCII bytes at null bytes into strings.
fn split_ascii_at_zero(bytes: &Vec<u8>) -> (r: Vec<String>)
    requires
        ascii_bytes(bytes@),
    ensures
        views_of(r@) == frame_strings(bytes@),
{
    let mut parts: Vec<String> = Vec::new();
    let mut cur = String::new();
    let mut i: usize = 0;
    proof {
        assert(bytes@.take(0) =~= Seq::<u8>::empty());
        assert(split_at_zero(Seq::<u8>::empty()) == seq![Seq::<u8>::empty()]);
        assert(bytes_chars(Seq::<u8>::empty()) =~= Seq::<char>::empty());
        assert(views_of(parts@).push(cur@) =~~= frame_strings(bytes@.take(0)));
    }
    while i < bytes.len()
        invariant
            i <= bytes@.len(),
            ascii_bytes(bytes@),
            views_of(parts@).push(cur@) == frame_strings(bytes@.take(i as int)),
        decreases bytes@.len() - i,
    {
        let b = bytes[i];
        let ghost t = bytes@.take(i + 1);
        proof {
            assert(t.drop_last() =~= bytes@.take(i as int));
            assert(t.last() == b);
            lemma_split_at_zero_nonempty(bytes@.take(i as int));
        }
        if b == 0 {
            let ghost old_parts = parts@;
            let done = cur;
            parts.push(done);
            cur = String::new();
            proof {
                let p = split_at_zero(bytes@.take(i as int));
                assert(split_at_zero(t) == p.push(Seq::<u8>::empty()));
                assert(bytes_chars(Seq::<u8>::empty()) =~= Seq::<char>::empty());
                assert(views_of(parts@) =~~= views_of(old_parts).push(done@));
                assert(frame_strings(t) =~~= frame_strings(bytes@.take(i as int)).push(Seq::<char>::empty()));
                assert(views_of(parts@).push(cur@) =~~= frame_strings(t));
            }
        } else {
            let ghost before = cur@;
            string_push(&mut cur, b as char);
            proof {
                let p = split_at_zero(bytes@.take(i as int));
                let q = p.update(p.len() - 1, p.last().push(b));
                assert(split_at_zero(t) == q);
                assert(bytes_chars(p.last().push(b)) =~= bytes_chars(p.last()).push(b as char));
                let fs = frame_strings(bytes@.take(i as int));
                assert(fs.last() == bytes_chars(p.last()));
                assert(before == fs.last());
                assert(frame_strings(t) =~~= fs.update(fs.len() - 1, fs.last().push(b as char)));
                assert(views_of(parts@).push(cur@) =~~= frame_strings(t));
            }
        }
        i = i + 1;
    }
    parts.push(cur);
    proof {
        assert(bytes@.take(bytes@.len() as int) =~= bytes@);
    }
    parts
}

/// Whether every byte is ASCII.
/// The strings of a decompressed frame: refused with a decompression error
/// unless every byte is ASCII, else its pieces between null bytes.
pub fn strings_of_frame(decoded: &Vec<u8>) -> (r: Result<Vec<String>, DbError>)
    ensures
        r is Ok <==> ascii_bytes(decoded@),
        r is Err ==> r->Err_0 is DecompressionError,
        r matches Ok(v) ==> views_of(v@) == frame_strings(decoded@),
{
    if !all_ascii_bytes(decoded) {
        return Err(DbError::DecompressionError(
            "ColData<String>::_zstd_decode - decoded strings contain non-ASCII characters".to_string(),
        ));
    }
    Ok(split_ascii_at_zero(decoded))
}

fn all_ascii_bytes(v: &Vec<u8>) -> (r: bool)
    ensures
        r == ascii_bytes(v@),
{
    let mut k: usize = 0;
    while k < v.len()
        invariant
            k <= v@.len(),
            forall|i: int| 0 <= i < k ==> v@[i] < 128,
        decreases v@.len() - k,
    {
        if v[k] >= 128 {
            return false;
        }
        k = k + 1;
    }
    true
}

/// Decoder of string column data.
pub struct StrDecoder {
    stage: ReadStage,
    bytes: Vec<u8>,
    n_bytes: u32,
    frame_size: u32,
    values: Vec<String>,
    n_rows: usize,
}

impl View for StrDecoder {
    type V = StrDecodeView;

    closed spec fn view(&self) -> StrDecodeView {
        StrDecodeView {
            stage: self.stage,
            bytes: self.bytes@,
            n_bytes: self.n_bytes as nat,
            frame_size: self.frame_size,
            values: views_of(self.values@),
            n_rows: self.n_rows as nat,
        }
    }
}

impl StrDecoder {
    /// Each decoded string is one row; the bytes of the current field are
    /// counted.
    pub closed spec fn wf(&self) -> bool {
        &&& self.n_rows == self.values@.len()
        &&& self.bytes@.len() == self.n_bytes
    }

    pub fn new() -> (r: StrDecoder)
        ensures
            r@ == str_decode_start(),
            r.wf(),
    {
        let d = StrDecoder {
            stage: ReadStage::SizeStage,
            bytes: Vec::new(),
            n_bytes: 0,
            frame_size: 0,
            values: Vec::new(),
            n_rows: 0,
        };
        assert(views_of(d.values@) =~= Seq::<Seq<char>>::empty());
        d
    }

    /// Decodes one byte; a frame that cannot be decoded is a decompression
    /// error.
    pub fn push_byte(&mut self, b: u8) -> (r: Result<(), DbError>)
        requires
            old(self).wf(),
        ensures
            final(self).wf(),
            match str_decode_step(old(self)@, b) {
                Some(s) => r is Ok && final(self)@ == s,
                None => r is Err && r->Err_0 is DecompressionError,
            },
    {
        if self.n_bytes == u32::MAX {
            return Err(DbError::DecompressionError(
                "ColData<String>::read_from_file - field longer than u32::MAX bytes".to_string(),
            ));
        }
        self.bytes.push(b);
        self.n_bytes = self.n_bytes + 1;
        let is_size_stage = match self.stage {
            ReadStage::SizeStage => true,
            ReadStage::DataStage => false,
        };
        if is_size_stage && self.n_bytes == 4 {
            self.frame_size = read_be_u32(self.bytes.as_slice(), 0);
            self.n_bytes = 0;
            self.stage = ReadStage::DataStage;
            self.bytes = Vec::new();
            return Ok(());
        }
        if self.n_bytes == self.frame_size {
            let decoded = match zstd_decode_all(self.bytes.as_slice()) {
                Ok(d) => d,
                Err(_) => {
                    return Err(DbError::DecompressionError(
                        "ColData<String>::_zstd_decode - zstd decompression failed".to_string(),
                    ));
                },
            };
            let mut parts = strings_of_frame(&decoded)?;
            let ghost old_values = self.values@;
            let ghost new_parts = parts@;
            self.values.append(&mut parts);
            let n_values = self.values.len();
            self.n_rows = n_values;
            self.n_bytes = 0;
            self.stage = ReadStage::SizeStage;
            self.bytes = Vec::new();
            proof {
                assert(views_of(self.values@) =~= views_of(old_values) + views_of(new_parts));
            }
            return Ok(());
        }
        Ok(())
    }

    /// Decodes the bytes of `data` from `from` on.
    pub fn push_bytes(&mut self, data: &[u8], from: usize) -> (r: Result<(), DbError>)
        requires
            from <= data@.len(),
            old(self).wf(),
        ensures
            final(self).wf(),
            match str_decode_run(old(self)@, data@.subrange(from as int, data@.len() as int)) {
                Some(s) => r is Ok && final(self)@ == s,
                None => r is Err && r->Err_0 is DecompressionError,
            },
    {
        let mut i = from;
        proof {
            assert(data@.subrange(from as int, from as int) =~= Seq::<u8>::empty());
        }
        while i < data.len()
            invariant
                from <= i <= data@.len(),
                self.wf(),
                str_decode_run(old(self)@, data@.subrange(from as int, i as int)) == Some(self@),
            decreases data@.len() - i,
        {
            let res = self.push_byte(data[i]);
            proof {
                let t = data@.subrange(from as int, i + 1);
                assert(t.drop_last() =~= data@.subrange(from as int, i as int));
                assert(t.last() == data@[i as int]);
            }
            if res.is_err() {
                proof {
                    lemma_str_decode_run_stays_none(old(self)@, data@.subrange(from as int, i + 1), data@.subrange(i + 1, data@.len() as int));
                    assert(data@.subrange(from as int, i + 1) + data@.subrange(i + 1, data@.len() as int) =~= data@.subrange(from as int, data@.len() as int));
                }
                return res;
            }
            i = i + 1;
        }
        Ok(())
    }

    /// The strings decoded so far.
    pub fn into_values(self) -> (r: Vec<String>)
        ensures
            views_of(r@) == self@.values,
    {
        self.values
    }
}

proof fn lemma_str_decode_run_stays_none(s: StrDecodeView, a: Seq<u8>, b: Seq<u8>)
    requires
        str_decode_run(s, a) is None,
    ensures
        str_decode_run(s, a + b) is None,
    decreases b.len(),
{
    if b.len() > 0 {
        lemma_str_decode_run_stays_none(s, a, b.drop_last());
        assert((a + b).drop_last() =~= a + b.drop_last());
    } else {
        assert(a + b =~= a);
    }
}

// ---------------------------------------------------------------------------
// Files of a column
// ---------------------------------------------------------------------------

/// What the reader of a column does after a read from the current file.
pub enum AfterRead {
    /// Decode the bytes just read.
    Continue,
    /// The current file is exhausted: open the next file of the column.
    OpenNextFile,
    /// All files are read.
    Finished,
}

/// Progress through the files of one column: the header of the current
/// file and the number of its data bytes read so far.
pub struct ColumnFilesRead {
    header: ColHeader,
    size_read: usize,
}

proof fn lemma_read_str_run_index(idx: int, end: int, buf: Seq<u8>, res: Seq<char>, limit: Option<nat>)
    requires
        idx <= end,
    ensures
        idx <= crate::db::storage::string_handlers::read_str_run(idx, end, buf, res, limit).1 <= end,
    decreases end - idx,
{
    if idx < end && buf[idx] != 0 && buf[idx] < 128 {
        let r2 = res.push(buf[idx] as char);
        if !(limit is Some && crate::db::storage::text::byte_len(r2) > limit->0) {
            lemma_read_str_run_index(idx + 1, end, buf, r2, limit);
        }
    }
}

proof fn lemma_parse_header_index(bytes_read: int, buf: Seq<u8>)
    requires
        0 <= bytes_read,
    ensures
        parse_header(0, bytes_read, buf).1 <= bytes_read,
{
    if bytes_read >= 14 && be_u32_at(buf, 0) == crate::db::constants::MAGIC_WORD && buf[6] <= 1 {
        lemma_read_str_run_index(12, bytes_read, buf, Seq::empty(), Some(crate::db::constants::MAX_COL_NAME_LEN as nat));
    }
}

impl ColumnFilesRead {
    pub closed spec fn header_view(&self) -> ColHeaderView {
        self.header@
    }

    pub closed spec fn size_read(&self) -> nat {
        self.size_read as nat
    }

    /// The bytes read never exceed what a header can announce.
    pub closed spec fn wf(&self) -> bool {
        self.size_read <= u32::MAX
    }

    /// Starts reading a column with the first chunk read from its first
    /// file: reads the header there and returns the index where the data
    /// starts.
    pub fn open(chunk: &[u8]) -> (r: Result<(ColumnFilesRead, usize), DbError>)
        requires
            chunk@.len() <= BUF_SIZE,
        ensures
            ({
                let (res, i2) = parse_header(0, chunk@.len() as int, chunk@);
                match res {
                    Ok(h) => r matches Ok((c, idx)) && c.header_view() == h && idx == i2
                        && c.size_read() == chunk@.len() - i2 && c.wf(),
                    Err(e) => r matches Err(err) && header_error_matches(e, err, chunk@, chunk@.len() as int),
                }
            }),
    {
        let mut idx: usize = 0;
        let header = ColHeader::create_header_from_buf(&mut idx, chunk.len(), chunk)?;
        proof {
            lemma_parse_header_index(chunk@.len() as int, chunk@);
        }
        let size_read = chunk.len() - idx;
        Ok((ColumnFilesRead { header, size_read }, idx))
    }

    /// Accounts for a read of `n` bytes from the current file, and says
    /// what comes next. The data read from a file may never exceed the size
    /// its header announces; once the last file is exhausted exactly that
    /// size must have been read.
    pub fn after_read(&mut self, n: usize, more_files: bool) -> (r: Result<AfterRead, DbError>)
        requires
            n <= BUF_SIZE,
            old(self).wf(),
        ensures
            final(self).wf(),
            final(self).header_view() == old(self).header_view(),
            r is Ok ==> final(self).size_read() == old(self).size_read() + n,
            ({
                let total = old(self).size_read() + n;
                let size = old(self).header_view().size_of_data;
                if total > size {
                    r is Err && r->Err_0 is SizeMismatch
                } else if n > 0 {
                    r matches Ok(AfterRead::Continue)
                } else if more_files {
                    r matches Ok(AfterRead::OpenNextFile)
                } else if total != size {
                    r is Err && r->Err_0 is Other
                } else {
                    r matches Ok(AfterRead::Finished)
                }
            }),
    {
        let total: u64 = self.size_read as u64 + n as u64;
        let size: u32 = self.header.size_of_data();
        if total > size as u64 {
            return Err(DbError::SizeMismatch {
                msg: "ColData::_read_new_data - Size of data read from file exceeds size stored in file header".to_string(),
                size_1: total as usize,
                size_2: size as usize,
            });
        }
        self.size_read = total as usize;
        if n == 0 {
            if more_files {
                return Ok(AfterRead::OpenNextFile);
            } else if self.size_read as u64 != size as u64 {
                return Err(DbError::Other(
                    "ColData::_read_new_data: We ended reading data from file, but amount of data we read is not equal to data size stored in file header".to_string(),
                ));
            } else {
                return Ok(AfterRead::Finished);
            }
        }
        Ok(AfterRead::Continue)
    }

    /// Continues with the first chunk read from the next file of the
    /// column: reads its header and returns the index where its data starts.
    pub fn open_next(&mut self, chunk: &[u8]) -> (r: Result<usize, DbError>)
        requires
            chunk@.len() <= BUF_SIZE,
        ensures
            ({
                let (res, i2) = parse_header(0, chunk@.len() as int, chunk@);
                match res {
                    Ok(h) => r == Ok::<usize, DbError>(i2 as usize) && final(self).header_view() == h
                        && final(self).size_read() == chunk@.len() - i2 && final(self).wf(),
                    Err(e) => r matches Err(err) && header_error_matches(e, err, chunk@, chunk@.len() as int),
                }
            }),
    {
        let (next, idx) = ColumnFilesRead::open(chunk)?;
        *self = next;
        Ok(idx)
    }
}

// ---------------------------------------------------------------------------
// Reading back what was written
// ---------------------------------------------------------------------------

/// A string that may be saved and read back: ASCII without null characters.
pub open spec fn storable_string(s: Seq<char>) -> bool {
    is_ascii_chars(s) && forall|i: int| 0 <= i < s.len() ==> s[i] as u32 != 0
}

proof fn lemma_split_append_nonzero(x: Seq<u8>, e: Seq<u8>)
    requires
        forall|i: int| 0 <= i < e.len() ==> e[i] != 0,
    ensures
        split_at_zero(x + e) == split_at_zero(x).update(
            split_at_zero(x).len() - 1,
            split_at_zero(x).last() + e,
        ),
    decreases e.len(),
{
    lemma_split_at_zero_nonempty(x);
    if e.len() == 0 {
        assert(x + e =~= x);
        assert(split_at_zero(x).last() + e =~= split_at_zero(x).last());
        assert(split_at_zero(x).update(split_at_zero(x).len() - 1, split_at_zero(x).last())
            =~= split_at_zero(x));
    } else {
        let e0 = e.drop_last();
        lemma_split_append_nonzero(x, e0);
        assert((x + e).drop_last() =~= x + e0);
        assert((x + e).last() == e.last());
        let p = split_at_zero(x);
        let q = p.update(p.len() - 1, p.last() + e0);
        assert(q.last() == p.last() + e0);
        assert(q.update(q.len() - 1, q.last().push(e.last())) =~~= p.update(p.len() - 1, p.last() + e));
    }
}

proof fn lemma_split_joined(strs: Seq<Seq<char>>)
    requires
        strs.len() >= 1,
        forall|i: int| 0 <= i < strs.len() ==> storable_string(#[trigger] strs[i]),
    ensures
        split_at_zero(joined_bytes(strs)) =~~= strs.map_values(|s: Seq<char>| encode_utf8(s)),
    decreases strs.len(),
{
    let last = strs.last();
    let e = encode_utf8(last);
    vstd::utf8::is_ascii_chars_encode_utf8(last);
    assert(storable_string(strs[strs.len() - 1]));
    assert forall|i: int| 0 <= i < e.len() implies e[i] != 0 by {
        assert(e[i] == last[i] as u8);
        assert(last[i] as u32 != 0);
        assert((last[i] as u32) < 128);
    }
    if strs.len() == 1 {
        lemma_split_append_nonzero(Seq::empty(), e);
        assert(Seq::<u8>::empty() + e =~= e);
        assert(split_at_zero(Seq::<u8>::empty()) == seq![Seq::<u8>::empty()]);
        assert(Seq::<u8>::empty() + e =~= e);
    } else {
        let init = strs.drop_last();
        assert forall|i: int| 0 <= i < init.len() implies storable_string(#[trigger] init[i]) by {
            assert(init[i] == strs[i]);
        }
        lemma_split_joined(init);
        let a = joined_bytes(init) + seq![0u8];
        assert(a.drop_last() =~= joined_bytes(init));
        assert(split_at_zero(a) == split_at_zero(joined_bytes(init)).push(Seq::<u8>::empty()));
        lemma_split_append_nonzero(a, e);
        assert(joined_bytes(strs) =~= a + e);
        assert(Seq::<u8>::empty() + e =~= e);
    }
}

proof fn lemma_chars_of_encoding(s: Seq<char>)
    requires
        is_ascii_chars(s),
    ensures
        bytes_chars(encode_utf8(s)) =~= s,
{
    vstd::utf8::is_ascii_chars_encode_utf8(s);
    assert forall|i: int| 0 <= i < s.len() implies (encode_utf8(s)[i] as char) == s[i] by {
        assert(encode_utf8(s)[i] == s[i] as u8);
        assert(encode_utf8(s)[i] as u32 == s[i] as u32);
    }
}

/// Strings saved in one batch are the strings of the frame read back.
pub proof fn lemma_frame_strings_of_batch(strs: Seq<Seq<char>>)
    requires
        strs.len() >= 1,
        forall|i: int| 0 <= i < strs.len() ==> storable_string(#[trigger] strs[i]),
    ensures
        frame_strings(joined_bytes(strs)) == strs,
        ascii_bytes(joined_bytes(strs)),
{
    lemma_split_joined(strs);
    assert forall|i: int| 0 <= i < strs.len() implies bytes_chars(encode_utf8(#[trigger] strs[i])) == strs[i] by {
        lemma_chars_of_encoding(strs[i]);
    }
    assert(frame_strings(joined_bytes(strs)) =~~= strs);
    lemma_joined_ascii(strs);
}

proof fn lemma_joined_ascii(strs: Seq<Seq<char>>)
    requires
        forall|i: int| 0 <= i < strs.len() ==> storable_string(#[trigger] strs[i]),
    ensures
        ascii_bytes(joined_bytes(strs)),
    decreases strs.len(),
{
    if strs.len() >= 1 {
        let last = strs.last();
        assert(storable_string(strs[strs.len() - 1]));
        vstd::utf8::is_ascii_chars_encode_utf8(last);
        let e = encode_utf8(last);
        assert forall|i: int| 0 <= i < e.len() implies e[i] < 128 by {
            assert(e[i] == last[i] as u8);
        }
        if strs.len() > 1 {
            let init = strs.drop_last();
            assert forall|i: int| 0 <= i < init.len() implies storable_string(#[trigger] init[i]) by {
                assert(init[i] == strs[i]);
            }
            lemma_joined_ascii(init);
        }
    }
}

/// The decoder between frames: waiting for a frame length, nothing pending,
/// and a previous frame length that cannot be taken for a size field.
pub open spec fn between_frames(s: StrDecodeView) -> bool {
    &&& s.stage is SizeStage
    &&& s.bytes.len() == 0
    &&& s.n_bytes == 0
    &&& !(1 <= s.frame_size <= 3)
}

/// What a batch writer needs for its batch to read back: a non-empty batch
/// of storable strings whose frame has at least four bytes, fits a `u32`
/// length, and decompresses to the joined strings.
pub open spec fn batch_reads_back(strs: Seq<Seq<char>>) -> bool {
    let z = zstd_compressed(joined_bytes(strs), ZSTD_ENCODE_LEVEL as int);
    &&& strs.len() >= 1
    &&& forall|i: int| 0 <= i < strs.len() ==> storable_string(#[trigger] strs[i])
    &&& 4 <= z.len() <= u32::MAX
    &&& zstd_decoded(z) == Some(joined_bytes(strs))
}

proof fn lemma_accumulate(s: StrDecodeView, data: Seq<u8>, limit: nat)
    requires
        s.stage is DataStage,
        s.bytes.len() == s.n_bytes,
        s.n_bytes + data.len() < limit,
        limit == s.frame_size,
        s.frame_size <= u32::MAX,
    ensures
        str_decode_run(s, data) == Some(
            StrDecodeView { bytes: s.bytes + data, n_bytes: s.n_bytes + data.len(), ..s },
        ),
    decreases data.len(),
{
    if data.len() == 0 {
        assert(s.bytes + data =~= s.bytes);
    } else {
        lemma_accumulate(s, data.drop_last(), limit);
        assert(s.bytes + data.drop_last() + seq![data.last()] =~= s.bytes + data);
        assert((s.bytes + data.drop_last()).push(data.last()) =~= s.bytes + data);
    }
}

/// Reading the bytes saved for a batch of strings, from a decoder between
/// frames, appends exactly the batch's strings.
pub proof fn lemma_str_batch_reads_back(s: StrDecodeView, strs: Seq<Seq<char>>)
    requires
        between_frames(s),
        batch_reads_back(strs),
    ensures
        ({
            let z = zstd_compressed(joined_bytes(strs), ZSTD_ENCODE_LEVEL as int);
            str_decode_run(s, str_batch_bytes(strs)) == Some(
                StrDecodeView {
                    stage: ReadStage::SizeStage,
                    bytes: Seq::empty(),
                    n_bytes: 0,
                    frame_size: z.len() as u32,
                    values: s.values + strs,
                    n_rows: s.n_rows + strs.len(),
                },
            )
        }),
{
    let z = zstd_compressed(joined_bytes(strs), ZSTD_ENCODE_LEVEL as int);
    let sz = u32_be_bytes(z.len() as u32);
    let all = str_batch_bytes(strs);
    assert(all =~= sz + z);
    // the size field
    let s1 = StrDecodeView { bytes: s.bytes.push(sz[0]), n_bytes: 1, ..s };
    assert(str_decode_step(s, sz[0]) == Some(s1));
    let s2 = StrDecodeView { bytes: s1.bytes.push(sz[1]), n_bytes: 2, ..s };
    assert(str_decode_step(s1, sz[1]) == Some(s2));
    let s3 = StrDecodeView { bytes: s2.bytes.push(sz[2]), n_bytes: 3, ..s };
    assert(str_decode_step(s2, sz[2]) == Some(s3));
    assert(s3.bytes.push(sz[3]) =~= sz);
    lemma_be_roundtrip(Seq::empty(), z.len() as u32, 0, Seq::empty());
    assert(Seq::<u8>::empty() + sz + Seq::<u8>::empty() =~= sz);
    let s4 = StrDecodeView {
        frame_size: z.len() as u32,
        n_bytes: 0,
        stage: ReadStage::DataStage,
        bytes: Seq::empty(),
        ..s
    };
    assert(str_decode_step(s3, sz[3]) == Some(s4));
    assert(sz =~= seq![sz[0], sz[1], sz[2], sz[3]]);
    assert(str_decode_run(s, seq![sz[0]]) == Some(s1)) by {
        assert(seq![sz[0]].drop_last() =~= Seq::<u8>::empty());
        assert(str_decode_run(s, Seq::<u8>::empty()) == Some(s));
        assert(seq![sz[0]].last() == sz[0]);
    }
    assert(str_decode_run(s, seq![sz[0], sz[1]]) == Some(s2)) by {
        assert(seq![sz[0], sz[1]].drop_last() =~= seq![sz[0]]);
    }
    assert(str_decode_run(s, seq![sz[0], sz[1], sz[2]]) == Some(s3)) by {
        assert(seq![sz[0], sz[1], sz[2]].drop_last() =~= seq![sz[0], sz[1]]);
    }
    assert(str_decode_run(s, sz) == Some(s4)) by {
        assert(sz.drop_last() =~= seq![sz[0], sz[1], sz[2]]);
    }
    // the frame
    let zi = z.drop_last();
    lemma_accumulate(s4, zi, z.len());
    let s5 = StrDecodeView { bytes: zi, n_bytes: zi.len(), ..s4 };
    assert(s4.bytes + zi =~= zi);
    assert(zi.push(z.last()) =~= z);
    lemma_frame_strings_of_batch(strs);
    assert(str_decode_step(s5, z.last()) == Some(
        StrDecodeView {
            stage: ReadStage::SizeStage,
            bytes: Seq::empty(),
            n_bytes: 0,
            frame_size: z.len() as u32,
            values: s.values + strs,
            n_rows: s.n_rows + strs.len(),
        },
    ));
    assert(str_decode_run(s4, z) == str_decode_step(s5, z.last())) by {
        assert(z.drop_last() =~= zi);
    }
    lemma_str_decode_run_concat(s, sz, z);
}

/// The bytes saved for a sequence of string batches, one after another.
pub open spec fn str_batches_bytes(bs: Seq<Seq<Seq<char>>>) -> Seq<u8>
    decreases bs.len(),
{
    if bs.len() == 0 {
        Seq::empty()
    } else {
        str_batches_bytes(bs.drop_last()) + str_batch_bytes(bs.last())
    }
}

/// The strings of a sequence of batches, in order.
pub open spec fn str_batches_strings(bs: Seq<Seq<Seq<char>>>) -> Seq<Seq<char>>
    decreases bs.len(),
{
    if bs.len() == 0 {
        Seq::empty()
    } else {
        str_batches_strings(bs.drop_last()) + bs.last()
    }
}

/// Reading a string column gives back every string saved, in order: the
/// decoder fed the bytes of the saved batches ends between frames, holding
/// all the batches' strings, one row each.
pub proof fn lemma_str_column_reads_back(s: StrDecodeView, bs: Seq<Seq<Seq<char>>>)
    requires
        between_frames(s),
        forall|i: int| 0 <= i < bs.len() ==> batch_reads_back(#[trigger] bs[i]),
    ensures
        str_decode_run(s, str_batches_bytes(bs)) matches Some(t) && between_frames(t) && t.values == s.values
            + str_batches_strings(bs) && t.n_rows == s.n_rows + str_batches_strings(bs).len(),
    decreases bs.len(),
{
    if bs.len() == 0 {
        assert(s.values + Seq::<Seq<char>>::empty() =~= s.values);
    } else {
        let init = bs.drop_last();
        assert forall|i: int| 0 <= i < init.len() implies batch_reads_back(#[trigger] init[i]) by {
            assert(init[i] == bs[i]);
        }
        lemma_str_column_reads_back(s, init);
        let t = str_decode_run(s, str_batches_bytes(init))->0;
        assert(batch_reads_back(bs[bs.len() - 1]));
        lemma_str_batch_reads_back(t, bs.last());
        lemma_str_decode_run_concat(s, str_batches_bytes(init), str_batch_bytes(bs.last()));
        assert(t.values + bs.last() =~= s.values + str_batches_strings(bs));
    }
}

/// The decoder starts between frames.
pub proof fn lemma_str_decode_start_between_frames()
    ensures
        between_frames(str_decode_start()),
{
}

} // verus!

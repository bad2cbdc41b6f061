//! The values of a column in the first file format: integer batches of
//! [`BATCH_SIZE`] rows, each the batch minimum (ZigZag) followed by every
//! other row as its distance from the minimum, all variable-length encoded.
use vstd::prelude::*;
use vstd::arithmetic::power2::pow2;
use crate::db::errors::DbError;
use crate::db::storage::col_data::vle_concat;
use crate::db::storage::encoders::{
    delta_encode_min_once, delta_encoding_min_once, lemma_delta_encoding_min_once_facts, unzigzag, vle_bytes,
    vle_decode_i, vle_decode_u, vle_encode_i, vle_encode_u, vle_value, zigzag,
};
use crate::file_format_prep::column_structs::{ColHeader, ColType, FfpColHeaderView};
use crate::file_format_prep::constants::BATCH_SIZE;

verus! {

/// The content of column data: the header of its current file, the values
/// and their number, and whether its first file is still to be created.
pub ghost struct FfpColDataView<T> {
    pub header: FfpColHeaderView,
    pub data: Seq<T>,
    pub n_rows: nat,
    pub first_time_saving: bool,
}

/// The values of one column, with the header of the file they go to.
pub struct ColData<T: ColType> {
    header: ColHeader,
    data: Vec<T>,
    n_rows: usize,
    first_time_saving: bool,
}

impl<T: ColType> View for ColData<T> {
    type V = FfpColDataView<T>;

    closed spec fn view(&self) -> FfpColDataView<T> {
        FfpColDataView { header: self.header@, data: self.data@, n_rows: self.n_rows as nat, first_time_saving: self.first_time_saving }
    }
}

impl<T: ColType> ColData<T> {
    /// No values yet for the file of `header`, whose type must be the type
    /// of the values.
    pub fn new(header: ColHeader) -> (r: Result<ColData<T>, String>)
        ensures
            r is Ok <==> header@.col_type == T::spec_col_type(),
            r matches Ok(c) ==> c@ == (FfpColDataView::<T> {
                header: header@,
                data: Seq::empty(),
                n_rows: 0,
                first_time_saving: true,
            }),
    {
        if header.col_type() != T::col_type() {
            return Err("Column type mismatch btwn header and data type".to_owned());
        }
        Ok(ColData { header, data: Vec::new(), n_rows: 0, first_time_saving: true })
    }
}

impl ColData<i64> {
    /// A batch is full at [`BATCH_SIZE`] values.
    pub fn is_full(&self) -> (r: bool)
        ensures
            r <==> self@.data.len() >= BATCH_SIZE,
    {
        self.data.len() >= BATCH_SIZE
    }

    /// The header, to change in place.
    pub fn get_mut_header(&mut self) -> (r: &mut ColHeader)
        ensures
            r@ == old(self)@.header,
            final(self)@ == (FfpColDataView::<i64> { header: final(r)@, ..old(self)@ }),
    {
        &mut self.header
    }

    /// Appends a value; a full batch refuses it and stays as it was.
    pub fn push(&mut self, val: i64) -> (r: Result<(), &'static str>)
        ensures
            r is Ok <==> old(self)@.data.len() < BATCH_SIZE,
            r is Ok ==> final(self)@ == (FfpColDataView::<i64> { data: old(self)@.data.push(val), ..old(self)@ }),
            r is Err ==> final(self)@ == old(self)@,
    {
        if self.is_full() {
            return Err("Data stored will be greater than batch size");
        }
        self.data.push(val);
        Ok(())
    }

    /// The bytes of one batch (see [`ffp_int_batch_payload`]); more rows
    /// than [`BATCH_SIZE`], or none, are refused.
    pub fn vle_encode(vals: &[i64]) -> (r: Result<Vec<u8>, DbError>)
        requires
            forall|i: int, j: int|
                0 <= i < vals@.len() && 0 <= j < vals@.len() ==> vals@[i] - vals@[j] <= i64::MAX,
        ensures
            r is Ok <==> 0 < vals@.len() <= BATCH_SIZE,
            r matches Ok(v) ==> v@ == ffp_int_batch_payload(vals@),
    {
        if vals.len() > BATCH_SIZE {
            return Err(DbError::InternalDbError(
                "ColData - save_to_file - vector of data has greater size than BATCH_SIZE".to_owned(),
            ));
        }
        let delta = delta_encode_min_once(vals)?;
        let mut out: Vec<u8> = Vec::new();
        vle_encode_i(&mut out, delta[0]);
        let ghost d = delta@;
        proof {
            lemma_delta_encoding_min_once_facts(vals@);
            assert(d.drop_first().take(0) =~= Seq::<i64>::empty());
        }
        let mut idx: usize = 1;
        while idx < delta.len()
            invariant
                1 <= idx <= delta.len(),
                d == delta@,
                d == delta_encoding_min_once(vals@),
                forall|i: int| 1 <= i < d.len() ==> d[i] >= 0,
                out@ == vle_bytes(zigzag(d[0] as int)) + vle_concat(d.drop_first().take(idx - 1)),
            decreases delta.len() - idx,
        {
            vle_encode_u(&mut out, delta[idx] as u64);
            proof {
                let t = d.drop_first().take(idx as int);
                assert(t.drop_last() =~= d.drop_first().take(idx - 1));
                assert(t.last() == d[idx as int]);
                assert(out@ =~= vle_bytes(zigzag(d[0] as int)) + vle_concat(t));
            }
            idx = idx + 1;
        }
        proof {
            assert(d.drop_first().take(idx - 1) =~= d.drop_first());
        }
        Ok(out)
    }
}

/// The variable-length bytes of a batch of the first format: the minimum
/// in ZigZag form, then the distances of the other values (the minimum
/// once, see [`delta_encoding_min_once`]).
pub open spec fn ffp_int_batch_payload(vals: Seq<i64>) -> Seq<u8> {
    let d = delta_encoding_min_once(vals);
    vle_bytes(zigzag(d[0] as int)) + vle_concat(d.drop_first())
}

/// State of decoding integer column data.
pub ghost struct FfpIntDecodeView {
    /// bytes of the value being read
    pub bytes: Seq<u8>,
    /// the next value is a batch's minimum
    pub first_value: bool,
    pub min_val: i64,
    pub n_rows: nat,
    pub values: Seq<i64>,
}

/// The decoder before any byte.
pub open spec fn ffp_int_decode_start() -> FfpIntDecodeView {
    FfpIntDecodeView { bytes: Seq::empty(), first_value: true, min_val: 0, n_rows: 0, values: Seq::empty() }
}

/// One byte of integer column data. A byte below 128 ends a value: the
/// first of a batch is its minimum (ZigZag), which is a row itself; each
/// other is a distance from the minimum. After every [`BATCH_SIZE`] rows a
/// new batch starts. `None`: a value longer than ten bytes, or a row
/// outside `i64`.
pub open spec fn ffp_int_decode_step(s: FfpIntDecodeView, b: u8) -> Option<FfpIntDecodeView> {
    let bytes = s.bytes.push(b);
    if b >= 128 {
        Some(FfpIntDecodeView { bytes, ..s })
    } else if bytes.len() > 10 {
        None
    } else {
        let raw = vle_value(bytes) % pow2(64);
        let v: int = if s.first_value {
            unzigzag(raw)
        } else {
            ((raw as u64) as i64) + s.min_val
        };
        if v < i64::MIN || v > i64::MAX {
            None
        } else {
            let n = s.n_rows + 1;
            Some(
                FfpIntDecodeView {
                    bytes: Seq::empty(),
                    first_value: n % (BATCH_SIZE as nat) == 0,
                    min_val: if s.first_value {
                        v as i64
                    } else {
                        s.min_val
                    },
                    n_rows: n,
                    values: s.values.push(v as i64),
                },
            )
        }
    }
}

/// The decoder after the bytes `data`, one at a time.
pub open spec fn ffp_int_decode_run(s: FfpIntDecodeView, data: Seq<u8>) -> Option<FfpIntDecodeView>
    decreases data.len(),
{
    if data.len() == 0 {
        Some(s)
    } else {
        match ffp_int_decode_run(s, data.drop_last()) {
            Some(t) => ffp_int_decode_step(t, data.last()),
            None => None,
        }
    }
}

/// Decodes integer column data byte by byte, as it is read.
pub struct FfpIntDecoder {
    bytes: Vec<u8>,
    first_value: bool,
    min_val: i64,
    n_rows: usize,
    values: Vec<i64>,
}

impl View for FfpIntDecoder {
    type V = FfpIntDecodeView;

    closed spec fn view(&self) -> FfpIntDecodeView {
        FfpIntDecodeView {
            bytes: self.bytes@,
            first_value: self.first_value,
            min_val: self.min_val,
            n_rows: self.n_rows as nat,
            values: self.values@,
        }
    }
}

impl FfpIntDecoder {
    /// As many rows counted as decoded.
    pub closed spec fn wf(&self) -> bool {
        self.n_rows == self.values@.len()
    }

    pub fn new() -> (r: FfpIntDecoder)
        ensures
            r@ == ffp_int_decode_start(),
            r.wf(),
    {
        FfpIntDecoder { bytes: Vec::new(), first_value: true, min_val: 0, n_rows: 0, values: Vec::new() }
    }

    /// Decodes one byte; a value that cannot be decoded is a decompression
    /// error.
    pub fn push_byte(&mut self, b: u8) -> (r: Result<(), DbError>)
        requires
            old(self).wf(),
            old(self)@.n_rows < usize::MAX,
        ensures
            match ffp_int_decode_step(old(self)@, b) {
                Some(s) => r is Ok && final(self)@ == s && final(self).wf(),
                None => r is Err,
            },
    {
        self.bytes.push(b);
        if b >= 128 {
            return Ok(());
        }
        if self.bytes.len() > 10 {
            return Err(DbError::DecompressionError("encoded value longer than ten bytes".to_owned()));
        }
        let v: i64 = if self.first_value {
            let m = vle_decode_i(&self.bytes);
            self.min_val = m;
            m
        } else {
            let raw = vle_decode_u(&self.bytes);
            let delta: i64 = raw as i64;
            match delta.checked_add(self.min_val) {
                Some(v) => v,
                None => {
                    return Err(DbError::DecompressionError("decoded value does not fit into i64".to_owned()));
                },
            }
        };
        self.first_value = false;
        self.bytes = Vec::new();
        self.values.push(v);
        self.n_rows = self.n_rows + 1;
        if self.n_rows % BATCH_SIZE == 0 {
            self.first_value = true;
        }
        Ok(())
    }

    /// The values decoded.
    pub fn values(&self) -> (r: &Vec<i64>)
        ensures
            r@ == self@.values,
    {
        &self.values
    }
}

/// What comes after reading `bytes_read` more bytes of a column file
/// holding `size_of_data` bytes of data, `size_read` of them read before.
pub enum AfterChunk {
    /// Decode the bytes read.
    Decode,
    /// The file is over; the column goes on in its next file.
    NextFile,
    /// All data was read.
    Done,
}

/// The step after a read: with bytes, decode them; with none, go on to the
/// next file where the header says the column overflows, else stop.
pub fn after_chunk(size_read: usize, bytes_read: usize, size_of_data: u32, is_overflow: bool) -> (r: AfterChunk)
    requires
        size_read + bytes_read <= size_of_data,
        bytes_read == 0 && !is_overflow ==> size_read == size_of_data,
    ensures
        bytes_read > 0 ==> r is Decode,
        bytes_read == 0 && is_overflow ==> r is NextFile,
        bytes_read == 0 && !is_overflow ==> r is Done,
{
    if bytes_read > 0 {
        AfterChunk::Decode
    } else if is_overflow {
        AfterChunk::NextFile
    } else {
        AfterChunk::Done
    }
}

} // verus!

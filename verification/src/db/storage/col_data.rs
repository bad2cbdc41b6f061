//! Column data: the values of one column, the byte layout of a saved batch,
//! and how a run of bytes is spread over the column's files.
use vstd::prelude::*;
use vstd::utf8::{encode_utf8, is_ascii_chars};
use crate::db::constants::{MAX_COL_NAME_LEN, LogicalColType, BATCH_SIZE, BUF_SIZE, MAX_FILE_SIZE, ZSTD_ENCODE_LEVEL};
use crate::db::errors::DbError;
use crate::db::storage::bytes_be::{push_be_u16, push_be_u32, u16_be_bytes, u32_be_bytes};
use crate::db::storage::col_header::{header_bytes, header_of, ColHeader, ColHeaderView};
use crate::db::storage::col_read::{batch_reads_back, storable_string};
use crate::db::storage::encoders::{delta_encode, delta_encoding, vle_bytes, vle_encode_i, vle_encode_u, zigzag};
use crate::external::zstd_api::{zstd_compressed, zstd_decoded, zstd_encode_all};

verus! {

/// Types a column can hold, with the logical column type they stand for.
pub trait ColType: Sized {
    spec fn spec_col_type() -> LogicalColType;

    fn col_type() -> (r: LogicalColType)
        ensures
            r == Self::spec_col_type(),
    ;
}

impl ColType for i64 {
    open spec fn spec_col_type() -> LogicalColType {
        LogicalColType::INT64
    }

    fn col_type() -> (r: LogicalColType) {
        LogicalColType::INT64
    }
}

impl ColType for String {
    open spec fn spec_col_type() -> LogicalColType {
        LogicalColType::VARCHAR
    }

    fn col_type() -> (r: LogicalColType) {
        LogicalColType::VARCHAR
    }
}

/// The values of one column together with the header of the file they are
/// written to next.
pub struct ColData<T: ColType> {
    header: ColHeader,
    data: Vec<T>,
    n_rows: usize,
    first_time_saving: bool,
}

/// What a [`ColData`] holds.
pub ghost struct ColDataView<T> {
    pub header: ColHeaderView,
    pub data: Seq<T>,
    pub n_rows: nat,
    pub first_time_saving: bool,
}

impl<T: ColType> View for ColData<T> {
    type V = ColDataView<T>;

    closed spec fn view(&self) -> ColDataView<T> {
        ColDataView {
            header: self.header@,
            data: self.data@,
            n_rows: self.n_rows as nat,
            first_time_saving: self.first_time_saving,
        }
    }
}

/// How one chunk of bytes is saved (see [`ColData::plan_chunk_save`]).
pub enum ChunkSave {
    /// The whole chunk is appended to the current file.
    Append,
    /// The first `fits` bytes go to the current file, whose header is then
    /// patched with the overflow flag and data size given; a new file is
    /// started with `next_header` and the rest of the chunk follows it.
    Split { fits: usize, old_is_overflow: bool, old_size_of_data: u32, next_header: Vec<u8> },
}

/// The bytes of the values `s` (non-negative distances), each in its
/// variable-length encoding, one after another.
pub open spec fn vle_concat(s: Seq<i64>) -> Seq<u8>
    decreases s.len(),
{
    if s.len() == 0 {
        Seq::empty()
    } else {
        vle_concat(s.drop_last()) + vle_bytes(s.last() as nat)
    }
}

/// The variable-length bytes of a delta-encoded batch: the minimum in
/// ZigZag form, then the distance of every value from it, in order.
pub open spec fn int_batch_payload(vals: Seq<i64>) -> Seq<u8> {
    let d = delta_encoding(vals);
    vle_bytes(zigzag(d[0] as int)) + vle_concat(d.drop_first())
}

/// The bytes of a saved integer batch: the row count (big-endian `u16`),
/// then the encoded values.
pub open spec fn int_batch_bytes(vals: Seq<i64>) -> Seq<u8> {
    u16_be_bytes(vals.len() as u16) + int_batch_payload(vals)
}

/// The bytes of ASCII strings joined with null bytes between them.
pub open spec fn joined_bytes(strs: Seq<Seq<char>>) -> Seq<u8>
    decreases strs.len(),
{
    if strs.len() == 0 {
        Seq::empty()
    } else if strs.len() == 1 {
        encode_utf8(strs[0])
    } else {
        joined_bytes(strs.drop_last()) + seq![0u8] + encode_utf8(strs.last())
    }
}

/// The bytes of a saved string batch: the length of the zstd frame
/// (big-endian `u32`), then the frame, which compresses the strings joined
/// with null bytes.
pub open spec fn str_batch_bytes(strs: Seq<Seq<char>>) -> Seq<u8> {
    let z = zstd_compressed(joined_bytes(strs), ZSTD_ENCODE_LEVEL as int);
    u32_be_bytes(z.len() as u32) + z
}

/// The views of a sequence of strings.
pub open spec fn string_views(s: Seq<String>) -> Seq<Seq<char>> {
    s.map_values(|x: String| x@)
}

impl<T: ColType> ColData<T> {
    /// Column data for the file described by `header`; the header's type
    /// must be the type of the values.
    pub fn new(header: ColHeader) -> (r: Result<ColData<T>, DbError>)
        ensures
            r is Ok <==> header@.col_type == T::spec_col_type(),
            r is Err ==> r->Err_0 is ColumnTypeMismatch,
            r matches Ok(c) ==> c@ == (ColDataView::<T> {
                header: header@,
                data: Seq::empty(),
                n_rows: 0,
                first_time_saving: true,
            }),
    {
        if header.col_type() != T::col_type() {
            return Err(DbError::ColumnTypeMismatch(
                "ColData::new: Column type mismatch btwn header and data type".to_string(),
            ));
        }
        Ok(ColData { header, data: Vec::new(), n_rows: 0, first_time_saving: true })
    }

    pub fn n_rows(&self) -> (r: usize)
        ensures
            r == self@.n_rows,
    {
        self.n_rows
    }

    /// The id of the column file written to next.
    pub fn col_file_id(&self) -> (r: u16)
        ensures
            r == self@.header.col_id,
    {
        self.header.col_id()
    }

    pub fn col_name(&self) -> (r: &str)
        ensures
            r@ == self@.header.col_name,
    {
        self.header.col_name().as_str()
    }

    pub fn header(&self) -> (r: &ColHeader)
        ensures
            r@ == self@.header,
    {
        &self.header
    }

    /// The values; consumes the column data.
    pub fn data(self) -> (r: Vec<T>)
        ensures
            r@ == self@.data,
    {
        self.data
    }

    /// Whether the column's file still has to be created before the first
    /// save; from then on it is not.
    pub fn begin_saving(&mut self) -> (r: bool)
        ensures
            r == old(self)@.first_time_saving,
            final(self)@ == (ColDataView { first_time_saving: false, ..old(self)@ }),
    {
        let r = self.first_time_saving;
        self.first_time_saving = false;
        r
    }

    /// Accounts for a chunk of `chunk_len` bytes saved to the column files.
    /// If it fits into the current file it is appended. Otherwise the
    /// current file is filled up to [`MAX_FILE_SIZE`] and marked as
    /// overflowing, the next file of the column is started with a fresh
    /// header, and the rest of the chunk is counted in that header.
    pub fn plan_chunk_save(&mut self, chunk_len: usize) -> (r: ChunkSave)
        requires
            chunk_len <= BUF_SIZE,
            old(self)@.header.size_of_data <= MAX_FILE_SIZE,
            old(self)@.header.size_of_data + chunk_len > MAX_FILE_SIZE ==> old(self)@.header.col_id < u16::MAX,
        ensures
            final(self)@.data == old(self)@.data,
            final(self)@.n_rows == old(self)@.n_rows,
            final(self)@.first_time_saving == old(self)@.first_time_saving,
            final(self)@.header.size_of_data <= MAX_FILE_SIZE,
            old(self)@.header.size_of_data + chunk_len <= MAX_FILE_SIZE ==> {
                &&& r is Append
                &&& final(self)@.header == (ColHeaderView {
                    size_of_data: (old(self)@.header.size_of_data + chunk_len) as u32,
                    ..old(self)@.header
                })
            },
            old(self)@.header.size_of_data + chunk_len > MAX_FILE_SIZE ==> {
                let fits = (MAX_FILE_SIZE - old(self)@.header.size_of_data) as usize;
                let next = header_of(
                    (old(self)@.header.col_id + 1) as u16,
                    old(self)@.header.col_type,
                    false,
                    0,
                    old(self)@.header.col_name,
                );
                &&& r matches ChunkSave::Split { fits: f, old_is_overflow, old_size_of_data, next_header }
                &&& f == fits
                &&& old_is_overflow
                &&& old_size_of_data == MAX_FILE_SIZE
                &&& next_header@ == header_bytes(next)
                &&& final(self)@.header == (ColHeaderView {
                    size_of_data: (chunk_len - fits) as u32,
                    ..next
                })
            },
    {
        let len32: u32 = chunk_len as u32;
        assert(len32 == chunk_len);
        match self.header.increase_data_size(len32) {
            Ok(_) => ChunkSave::Append,
            Err(available_space) => {
                let old_is_overflow = self.header.is_overflow();
                let old_size_of_data = self.header.size_of_data();
                let next = match self.header.create_next() {
                    Ok(h) => h,
                    Err(_) => {
                        assert(false);
                        return ChunkSave::Append;
                    },
                };
                self.header = next;
                let next_header = match self.header.encode_for_file() {
                    Ok(v) => v,
                    Err(_) => {
                        assert(false);
                        return ChunkSave::Append;
                    },
                };
                let rest: usize = chunk_len - available_space;
                let _ = self.header.increase_data_size(rest as u32);
                ChunkSave::Split { fits: available_space, old_is_overflow, old_size_of_data, next_header }
            },
        }
    }
}

impl ColData<i64> {
    /// A batch saved at once holds at most [`BATCH_SIZE`] values.
    pub fn check_batch_len(len: usize) -> (r: Result<(), DbError>)
        ensures
            r is Ok <==> len <= BATCH_SIZE,
            r is Err ==> r->Err_0 is InternalDbError,
    {
        if len > BATCH_SIZE {
            return Err(DbError::InternalDbError(
                "ColData<INT64> - save_to_file - provided vector of ints has greater size than BATCH_SIZE".to_string(),
            ));
        }
        Ok(())
    }

    /// The variable-length bytes of a batch: its delta encoding, the minimum
    /// ZigZag encoded and the distances as unsigned values. An empty batch
    /// has no minimum and is refused.
    pub fn vle_encode(vals: &[i64]) -> (r: Result<Vec<u8>, DbError>)
        requires
            forall|i: int, j: int|
                0 <= i < vals@.len() && 0 <= j < vals@.len() ==> vals@[i] - vals@[j] <= i64::MAX,
        ensures
            vals@.len() == 0 <==> r is Err,
            r is Err ==> r->Err_0 is Other,
            r matches Ok(v) ==> v@ == int_batch_payload(vals@),
    {
        let delta = delta_encode(vals)?;
        let mut out: Vec<u8> = Vec::new();
        vle_encode_i(&mut out, delta[0]);
        let ghost d = delta@;
        proof {
            crate::db::storage::encoders::lemma_delta_encoding_facts(vals@);
            assert(d.drop_first().take(0) =~= Seq::<i64>::empty());
        }
        let mut idx: usize = 1;
        while idx < delta.len()
            invariant
                1 <= idx <= delta.len(),
                d == delta@,
                d == delta_encoding(vals@),
                forall|i: int| 1 <= i < d.len() ==> d[i] >= 0,
                out@ == vle_bytes(zigzag(d[0] as int)) + vle_concat(d.drop_first().take(idx - 1)),
            decreases delta.len() - idx,
        {
            let ghost before = out@;
            vle_encode_u(&mut out, delta[idx] as u64);
            proof {
                let t = d.drop_first().take(idx as int);
                assert(t.drop_last() =~= d.drop_first().take(idx - 1));
                assert(t.last() == d[idx as int]);
                assert(out@ =~= vle_bytes(zigzag(d[0] as int)) + vle_concat(t));
            }
            idx = idx + 1;
        }
        proof {
            assert(d.drop_first().take(idx - 1) =~= d.drop_first());
        }
        Ok(out)
    }

    /// The bytes saved for a batch: row count then encoded values.
    pub fn batch_bytes(vals: &[i64]) -> (r: Result<Vec<u8>, DbError>)
        requires
            vals@.len() <= BATCH_SIZE,
            forall|i: int, j: int|
                0 <= i < vals@.len() && 0 <= j < vals@.len() ==> vals@[i] - vals@[j] <= i64::MAX,
        ensures
            vals@.len() == 0 <==> r is Err,
            r is Err ==> r->Err_0 is Other,
            r matches Ok(v) ==> v@ == int_batch_bytes(vals@),
    {
        let mut encoded = ColData::<i64>::vle_encode(vals)?;
        let rows_in_batch: u16 = vals.len() as u16;
        let mut out: Vec<u8> = Vec::new();
        push_be_u16(&mut out, rows_in_batch);
        let ghost e = encoded@;
        out.append(&mut encoded);
        assert(out@ =~= int_batch_bytes(vals@));
        Ok(out)
    }
}

impl ColData<String> {
    /// A batch saved at once holds at most [`BATCH_SIZE`] strings.
    pub fn check_batch_len(len: usize) -> (r: Result<(), DbError>)
        ensures
            r is Ok <==> len <= BATCH_SIZE,
            r is Err ==> r->Err_0 is SizeExceeded,
    {
        if len > BATCH_SIZE {
            return Err(DbError::SizeExceeded {
                msg: "ColData<String>::save_to_file - vector of data exceeds BATCH_SIZE".to_string(),
                max: BATCH_SIZE,
            });
        }
        Ok(())
    }

    /// The bytes saved for a batch of strings: the strings (all ASCII)
    /// joined with null bytes and compressed into one zstd frame, preceded
    /// by the frame's length. Strings that are not ASCII give a compression
    /// error.
    pub fn zstd_encode(strings: &[String]) -> (r: Result<Vec<u8>, DbError>)
        ensures
            (exists|i: int| 0 <= i < strings@.len() && !is_ascii_chars(#[trigger] strings@[i]@)) ==> r is Err,
            (forall|i: int| 0 <= i < strings@.len() ==> is_ascii_chars(#[trigger] strings@[i]@)) ==> r is Ok,
            r is Err ==> r->Err_0 is CompressionError,
            r matches Ok(v) ==> (forall|i: int| 0 <= i < strings@.len() ==> is_ascii_chars(#[trigger] strings@[i]@))
                && v@ == str_batch_bytes(string_views(strings@)),
            r is Ok ==> zstd_compressed(joined_bytes(string_views(strings@)), ZSTD_ENCODE_LEVEL as int).len() >= 6,
            r is Ok && strings@.len() >= 1 && (forall|i: int| 0 <= i < strings@.len() ==> storable_string(#[trigger] strings@[i]@))
                && zstd_compressed(joined_bytes(string_views(strings@)), ZSTD_ENCODE_LEVEL as int).len() <= u32::MAX
                ==> batch_reads_back(string_views(strings@)),
            r is Ok ==> zstd_decoded(zstd_compressed(joined_bytes(string_views(strings@)), ZSTD_ENCODE_LEVEL as int))
                == Some(joined_bytes(string_views(strings@))),
    {
        let mut k: usize = 0;
        while k < strings.len()
            invariant
                k <= strings@.len(),
                forall|i: int| 0 <= i < k ==> is_ascii_chars(#[trigger] strings@[i]@),
            decreases strings@.len() - k,
        {
            if !strings[k].as_str().is_ascii() {
                return Err(DbError::CompressionError(
                    "ColData<String>::_zstd_encode - data contains non-ASCII characters".to_string(),
                ));
            }
            k = k + 1;
        }
        let joined = join_with_null(strings);
        let compressed = match zstd_encode_all(joined.as_slice(), ZSTD_ENCODE_LEVEL) {
            Ok(c) => c,
            Err(_) => {
                return Err(DbError::CompressionError(
                    "ColData<String>::_zstd_encode - zstd compression failed".to_string(),
                ));
            },
        };
        Ok(frame_compressed(compressed))
    }
}

/// A compressed batch as it is saved: its length (big-endian `u32`), then
/// its bytes.
pub fn frame_compressed(compressed: Vec<u8>) -> (r: Vec<u8>)
    ensures
        r@ == u32_be_bytes(compressed@.len() as u32) + compressed@,
{
    let size: u32 = compressed.len() as u32;
    let mut out: Vec<u8> = Vec::new();
    push_be_u32(&mut out, size);
    let mut c = compressed;
    out.append(&mut c);
    out
}

/// The strings' bytes joined with a null byte between each two.
fn join_with_null(strings: &[String]) -> (r: Vec<u8>)
    ensures
        r@ == joined_bytes(string_views(strings@)),
{
    let mut out: Vec<u8> = Vec::new();
    let mut k: usize = 0;
    while k < strings.len()
        invariant
            k <= strings@.len(),
            out@ == joined_bytes(string_views(strings@).take(k as int)),
        decreases strings@.len() - k,
    {
        let ghost before = out@;
        if k > 0 {
            out.push(0u8);
        }
        let mut b = vstd::slice::slice_to_vec(strings[k].as_str().as_bytes());
        out.append(&mut b);
        proof {
            let sv = string_views(strings@);
            let t = sv.take(k + 1);
            assert(t.drop_last() =~= sv.take(k as int));
            assert(t.last() == strings@[k as int]@);
            if k == 0 {
                assert(out@ =~= joined_bytes(t));
            } else {
                assert(out@ =~= joined_bytes(t));
            }
        }
        k = k + 1;
    }
    proof {
        assert(string_views(strings@).take(k as int) =~= string_views(strings@));
    }
    out
}

} // verus!

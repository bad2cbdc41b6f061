//! Cells of a page-based layout (an early sketch of the storage).
use vstd::prelude::*;

verus! {

pub const CELL_DATA_SIZE: usize = 250;
pub const MAGIC_WORD_1: u32 = 0xF1FAAu32;

/// The header of a cell.
#[derive(Debug, Clone, Copy)]
pub struct CellHeader {
    pub is_overflow: bool,
    pub overflow_ptr: u16,
    pub size_of_data: u8,
    /// 0 where a new page starts.
    pub next_cell_offset: u16,
}

impl CellHeader {
    /// The header of an empty cell: no overflow, no data, no next cell.
    pub open spec fn new_spec() -> CellHeader {
        CellHeader { is_overflow: false, overflow_ptr: 0, size_of_data: 0, next_cell_offset: 0 }
    }

    /// A header of an empty cell.
    pub fn new() -> (r: CellHeader)
        ensures
            r == CellHeader::new_spec(),
    {
        CellHeader { is_overflow: false, overflow_ptr: 0, size_of_data: 0, next_cell_offset: 0 }
    }
}

/// A cell: a header and [`CELL_DATA_SIZE`] bytes of data.
pub struct Cell {
    cell_header: CellHeader,
    data: [u8; CELL_DATA_SIZE],
}

impl Cell {
    pub closed spec fn spec_header(&self) -> CellHeader {
        self.cell_header
    }

    pub closed spec fn spec_data(&self) -> Seq<u8> {
        self.data@
    }

    /// A cell with header `h` and zero bytes.
    pub fn new(h: CellHeader) -> (r: Cell)
        ensures
            r.spec_header() == h,
            r.spec_data() == Seq::new(CELL_DATA_SIZE as nat, |i: int| 0u8),
    {
        let r = Cell { cell_header: h, data: [0u8; CELL_DATA_SIZE] };
        assert(r.spec_data() =~= Seq::new(CELL_DATA_SIZE as nat, |i: int| 0u8));
        r
    }

    /// The data bytes.
    pub fn data(&self) -> (r: &[u8; CELL_DATA_SIZE])
        ensures
            r@ == self.spec_data(),
    {
        &self.data
    }

    /// Writes `byte_arr` into the data from `first_free_idx` on, and returns
    /// the index after the last byte written.
    pub fn insert_data(&mut self, byte_arr: &[u8], first_free_idx: usize) -> (r: usize)
        requires
            first_free_idx + byte_arr@.len() <= CELL_DATA_SIZE,
        ensures
            r == first_free_idx + byte_arr@.len(),
            final(self).spec_header() == old(self).spec_header(),
            final(self).spec_data().len() == CELL_DATA_SIZE,
            forall|k: int| 0 <= k < CELL_DATA_SIZE ==> #[trigger] final(self).spec_data()[k] == if first_free_idx <= k < r {
                byte_arr@[k - first_free_idx]
            } else {
                old(self).spec_data()[k]
            },
    {
        let mut i = first_free_idx;
        let mut j: usize = 0;
        while j < byte_arr.len()
            invariant
                first_free_idx + byte_arr@.len() <= CELL_DATA_SIZE,
                i == first_free_idx + j,
                j <= byte_arr@.len(),
                self.spec_header() == old(self).spec_header(),
                self.spec_data().len() == CELL_DATA_SIZE,
                forall|k: int| 0 <= k < CELL_DATA_SIZE ==> #[trigger] self.spec_data()[k] == if first_free_idx <= k < i {
                    byte_arr@[k - first_free_idx]
                } else {
                    old(self).spec_data()[k]
                },
            decreases byte_arr@.len() - j,
        {
            self.data.set(i, byte_arr[j]);
            i = i + 1;
            j = j + 1;
        }
        i
    }
}

/// A row of a column: its index, the offset to the next row, its size and
/// its cells.
pub struct ColRow {
    pub idx: u32,
    pub next_row: u32,
    pub row_size: u16,
    pub cells: Vec<Cell>,
}

/// The whole storage: magic word, column types (true for strings), row
/// offsets and rows.
pub struct StorageFormat {
    magic_word: u32,
    col_types: Vec<bool>,
    offsets_to_rows: Vec<u32>,
    colrows: Vec<ColRow>,
}

impl StorageFormat {
    pub closed spec fn spec_parts(&self) -> (u32, Seq<bool>, Seq<u32>, nat) {
        (self.magic_word, self.col_types@, self.offsets_to_rows@, self.colrows@.len())
    }

    pub fn new(magic_word: u32, col_types: Vec<bool>, offsets_to_rows: Vec<u32>, colrows: Vec<ColRow>) -> (r: StorageFormat)
        ensures
            r.spec_parts() == (magic_word, col_types@, offsets_to_rows@, colrows@.len()),
    {
        StorageFormat { magic_word, col_types, offsets_to_rows, colrows }
    }
}

} // verus!

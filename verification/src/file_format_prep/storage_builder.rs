//! Building cells from column values (an early sketch of the storage).
use vstd::prelude::*;
use crate::file_format_prep::storage_structs::{Cell, CellHeader, CELL_DATA_SIZE};

verus! {

/// Byte `k` (0 the most significant) of the 8 big-endian bytes of `v`.
pub open spec fn be_byte(v: i64, k: int) -> u8 {
    ((v as u64) >> ((56 - 8 * k) as u64)) as u8
}

/// The 8 bytes of `v`, most significant first (what `i64::to_be_bytes`
/// gives).
fn i64_be_bytes(v: i64) -> (r: [u8; 8])
    ensures
        forall|k: int| 0 <= k < 8 ==> #[trigger] r@[k] == be_byte(v, k),
{
    let u: u64 = v as u64;
    let r: [u8; 8] = [
        (u >> 56u64) as u8,
        (u >> 48u64) as u8,
        (u >> 40u64) as u8,
        (u >> 32u64) as u8,
        (u >> 24u64) as u8,
        (u >> 16u64) as u8,
        (u >> 8u64) as u8,
        u as u8,
    ];
    assert(r@[0] == be_byte(v, 0));
    assert(r@[1] == be_byte(v, 1));
    assert(r@[2] == be_byte(v, 2));
    assert(r@[3] == be_byte(v, 3));
    assert(r@[4] == be_byte(v, 4));
    assert(r@[5] == be_byte(v, 5));
    assert(r@[6] == be_byte(v, 6));
    assert(r@[7] == be_byte(v, 7)) by {
        assert(u >> 0u64 == u) by (bit_vector);
    }
    r
}

/// What [`create_cell`] writes at index `k` of the data of a cell for the
/// values `data`: value `k / 64` fills 64 bytes, its 8 bytes written 8
/// times over; past the values the data stays zero.
pub open spec fn cell_byte(data: Seq<i64>, k: int) -> u8 {
    if k < data.len() * 64 {
        be_byte(data[k / 64], k % 8)
    } else {
        0
    }
}

/// A cell filled from `data`: for each value, its 8 bytes are written once
/// for each of its bytes, one run after another, from the start of the
/// cell (64 bytes per value, so at most 3 values fit).
pub fn create_cell(data: &Vec<i64>) -> (r: Cell)
    requires
        data@.len() * 64 <= CELL_DATA_SIZE,
    ensures
        r.spec_header() == CellHeader::new_spec(),
        r.spec_data().len() == CELL_DATA_SIZE,
        forall|k: int| 0 <= k < CELL_DATA_SIZE ==> #[trigger] r.spec_data()[k] == cell_byte(data@, k),
{
    let mut cell = Cell::new(CellHeader::new());
    let mut cell_data_idx: usize = 0;
    let mut n: usize = 0;
    while n < data.len()
        invariant
            data@.len() * 64 <= CELL_DATA_SIZE,
            n <= data@.len(),
            cell_data_idx == n * 64,
            cell.spec_header() == CellHeader::new_spec(),
            cell.spec_data().len() == CELL_DATA_SIZE,
            forall|k: int| 0 <= k < CELL_DATA_SIZE ==> #[trigger] cell.spec_data()[k] == if k < cell_data_idx {
                cell_byte(data@, k)
            } else {
                0u8
            },
        decreases data@.len() - n,
    {
        let bytes = i64_be_bytes(data[n]);
        let mut b: usize = 0;
        while b < 8
            invariant
                data@.len() * 64 <= CELL_DATA_SIZE,
                n < data@.len(),
                b <= 8,
                cell_data_idx == n * 64 + b * 8,
                forall|k: int| 0 <= k < 8 ==> #[trigger] bytes@[k] == be_byte(data@[n as int], k),
                cell.spec_header() == CellHeader::new_spec(),
                cell.spec_data().len() == CELL_DATA_SIZE,
                forall|k: int| 0 <= k < CELL_DATA_SIZE ==> #[trigger] cell.spec_data()[k] == if k < n * 64 {
                    cell_byte(data@, k)
                } else if k < cell_data_idx {
                    be_byte(data@[n as int], k % 8)
                } else {
                    0u8
                },
            decreases 8 - b,
        {
            proof {
                assert((n + 1) * 64 <= data@.len() * 64) by (nonlinear_arith)
                    requires n < data@.len();
            }
            let ghost start = cell_data_idx as int;
            cell_data_idx = cell.insert_data(bytes.as_slice(), cell_data_idx);
            proof {
                assert forall|k: int| 0 <= k < CELL_DATA_SIZE implies #[trigger] cell.spec_data()[k] == if k < n * 64 {
                    cell_byte(data@, k)
                } else if k < cell_data_idx {
                    be_byte(data@[n as int], k % 8)
                } else {
                    0u8
                } by {
                    if start <= k < cell_data_idx {
                        assert(k % 8 == k - start) by (nonlinear_arith)
                            requires start == n * 64 + b * 8, start <= k < start + 8;
                        assert(bytes@[k - start] == be_byte(data@[n as int], k - start));
                    }
                }
            }
            b = b + 1;
        }
        proof {
            assert forall|k: int| n * 64 <= k < (n + 1) * 64 implies #[trigger] cell_byte(data@, k) == be_byte(data@[n as int], k % 8) by {
                assert(k / 64 == n) by (nonlinear_arith)
                    requires n * 64 <= k < (n + 1) * 64;
                assert(k < data@.len() * 64) by (nonlinear_arith)
                    requires k < (n + 1) * 64, n < data@.len();
            }
        }
        n = n + 1;
    }
    cell
}

/// Builds the storage of two int columns (not done yet: nothing is built).
pub fn simple_build() {
}

} // verus!

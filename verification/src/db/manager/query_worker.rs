//! The decisions of a query worker: checks of a COPY against its table and
//! the CSV it reads, how CSV rows go into batches of column values, and the
//! messages sent back for a finished query. Reading files and CSV, and
//! writing column files, is left to the task that runs the worker.
use vstd::prelude::*;
use crate::db::constants::{BATCH_SIZE, COPY_QUERY_NAME};
use crate::db::errors::{db_error_text, DbError};
use crate::db::manager::messages::{BaseQueryDataInfo, DbWorkerMsg, QueryCompletionMsg, QueryFailureMsg, SelectQData, WorkerMsgRes};
use crate::db::storage::metadata::{last_position, ColDataWrapper, ColMetadataView, ColumnIndexMap, TableMetadata, TableMetadataView};
use crate::db::storage::text::{parse_i64, parse_i64_spec};
use crate::schemas::column::{DataColumn, Int64Column, VarcharColumn};
use crate::schemas::error::MultipleProblemsError;
use crate::schemas::query::{CopyQuery, CopyQueryView, QueryResult};

verus! {

/// The names of the columns of a table.
pub open spec fn table_col_names(t: TableMetadataView) -> Seq<Seq<char>> {
    t.columns.map_values(|c: ColMetadataView| c.name)
}

/// A COPY fits its table: it names it, and where it gives destination
/// columns there are at least as many as the table has distinct column
/// names, each is a column of the table, and none is given twice.
pub open spec fn copy_query_ok(c: CopyQueryView, t: TableMetadataView) -> bool {
    &&& c.dest_table_name == t.name
    &&& match c.dest_columns {
        None => true,
        Some(dc) => {
            &&& dc.len() >= table_col_names(t).to_set().len()
            &&& forall|i: int| 0 <= i < dc.len() ==> table_col_names(t).contains(#[trigger] dc[i])
            &&& dc.no_duplicates()
        },
    }
}

/// The error for a COPY that does not fit its table, the checks made in the
/// order of [`copy_query_ok`]: `Other` for another table name or a repeated
/// destination column, `SizeMismatch` for too few destination columns,
/// `NotFound` for one the table does not have.
pub open spec fn copy_query_error_is(c: CopyQueryView, t: TableMetadataView, e: DbError) -> bool {
    if c.dest_table_name != t.name {
        e is Other
    } else {
        match c.dest_columns {
            None => false,
            Some(dc) => if dc.len() < table_col_names(t).to_set().len() {
                e matches DbError::SizeMismatch { size_1, size_2, .. } && size_1 == dc.len() && size_2
                    == table_col_names(t).to_set().len()
            } else if exists|i: int| 0 <= i < dc.len() && !table_col_names(t).contains(#[trigger] dc[i]) {
                e is NotFound
            } else {
                e is Other
            },
        }
    }
}

/// The number of distinct names among `names`.
fn count_distinct(names: &Vec<String>) -> (r: usize)
    ensures
        r == names@.map_values(|s: String| s@).to_set().len(),
{
    let ghost nv = names@.map_values(|s: String| s@);
    let mut count: usize = 0;
    let mut i: usize = 0;
    assert(nv.take(0).to_set() =~= Set::<Seq<char>>::empty());
    while i < names.len()
        invariant
            nv == names@.map_values(|s: String| s@),
            i <= names@.len(),
            count == nv.take(i as int).to_set().len(),
            count <= i,
        decreases names@.len() - i,
    {
        let mut seen = false;
        let mut j: usize = 0;
        while j < i
            invariant
                nv == names@.map_values(|s: String| s@),
                i < names@.len(),
                j <= i,
                seen == exists|k: int| 0 <= k < j && nv[k] == nv[i as int],
            decreases i - j,
        {
            if names[j] == names[i] {
                proof {
                    assert(nv[j as int] == names@[j as int]@);
                    assert(nv[i as int] == names@[i as int]@);
                }
                seen = true;
            } else {
                proof {
                    assert(nv[j as int] == names@[j as int]@);
                    assert(nv[i as int] == names@[i as int]@);
                    assert forall|k: int| 0 <= k < j + 1 && nv[k] == nv[i as int] implies 0 <= k < j by {}
                }
            }
            j = j + 1;
        }
        proof {
            let pre = nv.take(i as int);
            let x = nv[i as int];
            assert(nv.take(i + 1) =~= pre.push(x));
            pre.lemma_push_to_set_commute(x);
            vstd::seq_lib::seq_to_set_is_finite(pre);
            if seen {
                let k = choose|k: int| 0 <= k < i && nv[k] == x;
                assert(pre[k] == x);
                assert(pre.to_set().contains(x));
                assert(pre.to_set().insert(x) =~= pre.to_set());
            } else {
                assert(!pre.to_set().contains(x)) by {
                    if pre.to_set().contains(x) {
                        let k = choose|k: int| 0 <= k < pre.len() && pre[k] == x;
                        assert(nv[k] == x);
                    }
                }
            }
            vstd::seq_lib::seq_to_set_is_finite(nv.take(i + 1));
            assert(nv.take(i + 1).to_set().len() <= i + 1) by {
                nv.take(i + 1).lemma_cardinality_of_set();
            }
        }
        if !seen {
            count = count + 1;
        }
        i = i + 1;
    }
    assert(nv.take(i as int) =~= nv);
    count
}

} // verus!

verus! {

/// Checks a COPY against its table (see [`copy_query_ok`] and
/// [`copy_query_error_is`]).
pub fn validate_copy_query(copy_q: &CopyQuery, table_meta: &TableMetadata) -> (r: Result<(), DbError>)
    ensures
        r is Ok <==> copy_query_ok(copy_q@, table_meta@),
        r matches Err(e) ==> copy_query_error_is(copy_q@, table_meta@, e),
{
    let dest_name = copy_q.dest_table_name().to_owned();
    let table_name = table_meta.table_name().to_owned();
    if dest_name != table_name {
        return Err(DbError::Other("in copy query the table name differs from the one in table metadata".to_string()));
    }
    if let Some(dest_columns) = copy_q.dest_columns() {
        let ghost dc = dest_columns@.map_values(|s: String| s@);
        let col_index = table_meta.get_column_name_to_index_map();
        let n_distinct = count_distinct(col_index.names());
        proof {
            assert(col_index@ =~= table_col_names(table_meta@));
        }
        if dest_columns.len() < n_distinct {
            return Err(DbError::SizeMismatch {
                msg: "number of destination columns is less than the number of table columns".to_string(),
                size_1: dest_columns.len(),
                size_2: n_distinct,
            });
        }
        let mut i: usize = 0;
        while i < dest_columns.len()
            invariant
                dc == dest_columns@.map_values(|s: String| s@),
                copy_q@.dest_columns == Some(dc),
                copy_q@.dest_table_name == table_meta@.name,
                dc.len() >= table_col_names(table_meta@).to_set().len(),
                col_index@ == table_col_names(table_meta@),
                i <= dest_columns@.len(),
                forall|k: int| 0 <= k < i ==> table_col_names(table_meta@).contains(#[trigger] dc[k]),
            decreases dest_columns@.len() - i,
        {
            if !col_index.contains_key(dest_columns[i].as_str()) {
                proof {
                    assert(dc[i as int] == dest_columns@[i as int]@);
                    assert(!table_col_names(table_meta@).contains(dc[i as int]));
                }
                return Err(DbError::NotFound("destination column not found in table".to_string()));
            }
            proof {
                assert(dc[i as int] == dest_columns@[i as int]@);
            }
            i = i + 1;
        }
        let mut i: usize = 0;
        while i < dest_columns.len()
            invariant
                dc == dest_columns@.map_values(|s: String| s@),
                copy_q@.dest_columns == Some(dc),
                copy_q@.dest_table_name == table_meta@.name,
                dc.len() >= table_col_names(table_meta@).to_set().len(),
                forall|k: int| 0 <= k < dc.len() ==> table_col_names(table_meta@).contains(#[trigger] dc[k]),
                i <= dest_columns@.len(),
                forall|a: int, b: int| 0 <= a < b < i ==> dc[a] != dc[b],
            decreases dest_columns@.len() - i,
        {
            let mut j: usize = 0;
            while j < i
                invariant
                    dc == dest_columns@.map_values(|s: String| s@),
                    copy_q@.dest_columns == Some(dc),
                    copy_q@.dest_table_name == table_meta@.name,
                    dc.len() >= table_col_names(table_meta@).to_set().len(),
                    forall|k: int| 0 <= k < dc.len() ==> table_col_names(table_meta@).contains(#[trigger] dc[k]),
                    i < dest_columns@.len(),
                    j <= i,
                    forall|a: int| 0 <= a < j ==> dc[a] != dc[i as int],
                decreases i - j,
            {
                proof {
                    assert(dc[j as int] == dest_columns@[j as int]@);
                    assert(dc[i as int] == dest_columns@[i as int]@);
                }
                if dest_columns[j] == dest_columns[i] {
                    proof {
                        assert(!dc.no_duplicates());
                    }
                    return Err(DbError::Other("duplicate column name in destination columns".to_string()));
                }
                j = j + 1;
            }
            i = i + 1;
        }
    }
    Ok(())
}

} // verus!

verus! {

/// The header of a CSV fits a COPY into its table: where the CSV has a
/// header and no destination columns are given, the header names the
/// table's columns in order; with destination columns, the header has at
/// least as many columns as the table.
pub open spec fn csv_header_ok(c: CopyQueryView, t: TableMetadataView, index: Seq<Seq<char>>, h: Seq<Seq<char>>) -> bool {
    !c.does_csv_contain_header || match c.dest_columns {
        None => h.len() == t.columns.len() && forall|i: int| 0 <= i < h.len() ==> index.contains(#[trigger] h[i]) && h[i]
            == t.columns[i].name,
        Some(_) => h.len() >= t.columns.len(),
    }
}

/// With a header in the CSV and no destination columns, a COPY accepts the
/// header only if it names the table's columns, the same names in the same
/// order (so the CSV's `i`-th column is loaded into the table's `i`-th
/// column), whatever the index of column names holds; where the index
/// holds each of the table's names, such a header is accepted. With
/// destination columns, an accepted header has at least as many columns as
/// the table; a CSV without a header is always accepted.
pub proof fn law_csv_header_matches_table_order(c: CopyQueryView, t: TableMetadataView, index: Seq<Seq<char>>, h: Seq<Seq<char>>)
    ensures
        c.does_csv_contain_header && c.dest_columns is None && csv_header_ok(c, t, index, h) ==> {
            &&& h.len() == t.columns.len()
            &&& forall|i: int| 0 <= i < h.len() ==> #[trigger] h[i] == t.columns[i].name
        },
        c.does_csv_contain_header && c.dest_columns is None && (exists|i: int|
            0 <= i < h.len() && i < t.columns.len() && #[trigger] h[i] != t.columns[i].name) ==> !csv_header_ok(c, t, index, h),
        c.does_csv_contain_header && c.dest_columns is None && h.len() == t.columns.len() && (forall|i: int|
            0 <= i < h.len() ==> #[trigger] h[i] == t.columns[i].name && index.contains(h[i])) ==> csv_header_ok(c, t, index, h),
        c.does_csv_contain_header && c.dest_columns is Some && csv_header_ok(c, t, index, h) ==> h.len() >= t.columns.len(),
        !c.does_csv_contain_header ==> csv_header_ok(c, t, index, h),
{
}

/// Checks the header of the CSV of a COPY (see [`csv_header_ok`]): a
/// header of the wrong length is `WrongSize`, a name that is not the
/// table's column at its position is `NotFound`.
pub fn validate_csv_header(
    query_data: &CopyQuery,
    table_meta: &TableMetadata,
    col_name_to_idx_map: &ColumnIndexMap,
    headers: &Vec<String>,
) -> (r: Result<(), DbError>)
    ensures
        r is Ok <==> csv_header_ok(query_data@, table_meta@, col_name_to_idx_map@, headers@.map_values(|s: String| s@)),
        r is Ok && query_data@.does_csv_contain_header && query_data@.dest_columns is None ==> headers@.len()
            == table_meta@.columns.len() && forall|i: int| 0 <= i < headers@.len() ==> (#[trigger] headers@[i])@
            == table_meta@.columns[i].name,
        r matches Err(e) ==> (if headers@.len() != table_meta@.columns.len() && query_data@.dest_columns is None
            || headers@.len() < table_meta@.columns.len() {
            e is WrongSize
        } else {
            e is NotFound
        }),
{
    if !query_data.csv_contains_header() {
        return Ok(());
    }
    let ghost h = headers@.map_values(|s: String| s@);
    let columns = table_meta.columns();
    match query_data.dest_columns() {
        None => {
            if headers.len() != columns.len() {
                return Err(DbError::WrongSize(
                    "no destination columns given, and the csv has a different number of columns than the table".to_string(),
                ));
            }
            let mut idx: usize = 0;
            while idx < headers.len()
                invariant
                    h == headers@.map_values(|s: String| s@),
                    query_data@.dest_columns is None,
                    query_data@.does_csv_contain_header,
                    headers@.len() == columns@.len(),
                    columns@.len() == table_meta@.columns.len(),
                    crate::db::storage::metadata::col_views(columns@) == table_meta@.columns,
                    idx <= headers@.len(),
                    forall|i: int| 0 <= i < idx ==> col_name_to_idx_map@.contains(#[trigger] h[i]) && h[i]
                        == table_meta@.columns[i].name,
                decreases headers@.len() - idx,
            {
                let col_name = headers[idx].as_str();
                proof {
                    assert(h[idx as int] == col_name@);
                    assert(table_meta@.columns[idx as int] == columns@[idx as int]@);
                }
                if !col_name_to_idx_map.contains_key(col_name) {
                    return Err(DbError::NotFound("csv has a column that doesn't exist in the table schema".to_string()));
                }
                let col_name_in_table = columns[idx].c_name().to_owned();
                if headers[idx] != col_name_in_table {
                    return Err(DbError::NotFound(
                        "csv column name differs from the table column at the same position".to_string(),
                    ));
                }
                idx = idx + 1;
            }
            proof {
                assert forall|i: int| 0 <= i < headers@.len() implies (#[trigger] headers@[i])@ == table_meta@.columns[i].name by {
                    assert(h[i] == headers@[i]@);
                }
            }
            Ok(())
        },
        Some(_) => {
            if headers.len() < columns.len() {
                return Err(DbError::WrongSize(
                    "destination columns given, and the csv has fewer columns than the table".to_string(),
                ));
            }
            Ok(())
        },
    }
}

/// The row in table order: starting from `n` empty values, the value at
/// each of the first `k` positions of the CSV row is written at the
/// position of its destination column's name (where that is below `n`).
pub open spec fn row_writes(dest: Seq<Seq<char>>, index: Seq<Seq<char>>, row: Seq<Seq<char>>, n: nat, k: nat) -> Seq<Seq<char>>
    decreases k,
{
    if k == 0 {
        Seq::new(n, |p: int| Seq::<char>::empty())
    } else {
        let pos = choose|p: int| #[trigger] last_position(index, dest[k - 1], p);
        let prev = row_writes(dest, index, row, n, (k - 1) as nat);
        if 0 <= pos < n {
            prev.update(pos, row[k - 1])
        } else {
            prev
        }
    }
}

proof fn lemma_row_writes_len(dest: Seq<Seq<char>>, index: Seq<Seq<char>>, row: Seq<Seq<char>>, n: nat, k: nat)
    ensures
        row_writes(dest, index, row, n, k).len() == n,
    decreases k,
{
    if k > 0 {
        lemma_row_writes_len(dest, index, row, n, (k - 1) as nat);
    }
}

/// Puts the first `n_table_cols` values of a CSV row in table order, each
/// at the position of the column its destination column names (see
/// [`row_writes`]). Fewer destination columns than table columns is an
/// `InternalDbError`.
pub fn map_csv_row_to_table_order(
    dest_cols: &Vec<String>,
    n_table_cols: usize,
    col_name_to_idx_map: &ColumnIndexMap,
    csv_row: &Vec<String>,
) -> (r: Result<Vec<String>, DbError>)
    requires
        csv_row@.len() >= n_table_cols,
        col_name_to_idx_map@.len() <= n_table_cols,
        dest_cols@.len() >= n_table_cols ==> forall|i: int|
            0 <= i < n_table_cols ==> col_name_to_idx_map@.contains(#[trigger] dest_cols@[i]@),
    ensures
        r is Ok <==> dest_cols@.len() >= n_table_cols,
        r is Err ==> r->Err_0 is InternalDbError,
        r matches Ok(v) ==> v@.map_values(|s: String| s@) == row_writes(
            dest_cols@.map_values(|s: String| s@),
            col_name_to_idx_map@,
            csv_row@.map_values(|s: String| s@),
            n_table_cols as nat,
            n_table_cols as nat,
        ),
{
    if dest_cols.len() < n_table_cols {
        return Err(DbError::InternalDbError(
            "fewer destination columns than table columns, which should have been checked earlier".to_string(),
        ));
    }
    let ghost dv = dest_cols@.map_values(|s: String| s@);
    let ghost rv = csv_row@.map_values(|s: String| s@);
    let mut res_vec: Vec<String> = Vec::new();
    let mut k: usize = 0;
    while k < n_table_cols
        invariant
            k <= n_table_cols,
            res_vec@.len() == k,
            forall|p: int| 0 <= p < k ==> (#[trigger] res_vec@[p])@ == Seq::<char>::empty(),
        decreases n_table_cols - k,
    {
        res_vec.push(String::new());
        k = k + 1;
    }
    assert(res_vec@.map_values(|s: String| s@) =~= row_writes(dv, col_name_to_idx_map@, rv, n_table_cols as nat, 0));
    let mut idx: usize = 0;
    while idx < n_table_cols
        invariant
            dv == dest_cols@.map_values(|s: String| s@),
            rv == csv_row@.map_values(|s: String| s@),
            csv_row@.len() >= n_table_cols,
            dest_cols@.len() >= n_table_cols,
            col_name_to_idx_map@.len() <= n_table_cols,
            forall|i: int| 0 <= i < n_table_cols ==> col_name_to_idx_map@.contains(#[trigger] dest_cols@[i]@),
            idx <= n_table_cols,
            res_vec@.len() == n_table_cols,
            res_vec@.map_values(|s: String| s@) == row_writes(dv, col_name_to_idx_map@, rv, n_table_cols as nat, idx as nat),
        decreases n_table_cols - idx,
    {
        proof {
            assert(dv[idx as int] == dest_cols@[idx as int]@);
            assert(col_name_to_idx_map@.contains(dest_cols@[idx as int]@));
        }
        let name_idx = match col_name_to_idx_map.get(dest_cols[idx].as_str()) {
            Some(i) => i,
            None => {
                return Err(DbError::InternalDbError("destination column missing from table".to_string()));
            },
        };
        let ghost prev = res_vec@;
        res_vec.set(name_idx, csv_row[idx].clone());
        proof {
            let pos = choose|p: int| #[trigger] last_position(col_name_to_idx_map@, dv[idx as int], p);
            assert(last_position(col_name_to_idx_map@, dv[idx as int], name_idx as int));
            if pos != name_idx as int {
                if pos < name_idx as int {
                    assert(col_name_to_idx_map@[name_idx as int] != dv[idx as int]);
                } else {
                    assert(col_name_to_idx_map@[pos] != dv[idx as int]);
                }
            }
            assert(rv[idx as int] == csv_row@[idx as int]@);
            assert(res_vec@.map_values(|s: String| s@) =~= prev.map_values(|s: String| s@).update(name_idx as int, rv[idx as int]));
        }
        idx = idx + 1;
    }
    Ok(res_vec)
}

/// Adds the values of one CSV row to the batches, the value at position `i`
/// to batch `i` (see [`DataColumn::push_text`]). A value an INT64 batch
/// does not accept is a `CsvError`; the batches before it keep the values
/// they got.
pub fn push_values_to_batches(
    vals_vec: &Vec<String>,
    batches: &mut Vec<DataColumn>,
    row_idx: i32,
    table_name: &str,
) -> (r: Result<(), DbError>)
    requires
        vals_vec@.len() <= old(batches)@.len(),
    ensures
        final(batches)@.len() == old(batches)@.len(),
        r is Ok <==> forall|i: int| 0 <= i < vals_vec@.len() ==> #[trigger] old(batches)@[i].accepts_text(vals_vec@[i]@),
        r is Err ==> r->Err_0 is CsvError,
        ({
            let m = if r is Ok {
                vals_vec@.len() as int
            } else {
                choose|m: int| 0 <= m < vals_vec@.len() && !old(batches)@[m].accepts_text(vals_vec@[m]@) && forall|i: int|
                    0 <= i < m ==> #[trigger] old(batches)@[i].accepts_text(vals_vec@[i]@)
            };
            &&& forall|i: int| 0 <= i < m ==> #[trigger] old(batches)@[i].pushed_text(final(batches)@[i], vals_vec@[i]@)
            &&& forall|i: int| m <= i < old(batches)@.len() ==> #[trigger] final(batches)@[i] == old(batches)@[i]
        }),
{
    let _ = row_idx;
    let _ = table_name;
    let mut idx: usize = 0;
    while idx < vals_vec.len()
        invariant
            vals_vec@.len() <= old(batches)@.len(),
            batches@.len() == old(batches)@.len(),
            idx <= vals_vec@.len(),
            forall|i: int| 0 <= i < idx ==> #[trigger] old(batches)@[i].accepts_text(vals_vec@[i]@),
            forall|i: int| 0 <= i < idx ==> #[trigger] old(batches)@[i].pushed_text(batches@[i], vals_vec@[i]@),
            forall|i: int| idx <= i < old(batches)@.len() ==> #[trigger] batches@[i] == old(batches)@[i],
        decreases vals_vec@.len() - idx,
    {
        let ok = batches[idx].push_text(vals_vec[idx].as_str());
        if !ok {
            proof {
                let m = choose|m: int| 0 <= m < vals_vec@.len() && !old(batches)@[m].accepts_text(vals_vec@[m]@) && forall|i: int|
                    0 <= i < m ==> #[trigger] old(batches)@[i].accepts_text(vals_vec@[i]@);
                assert(!old(batches)@[idx as int].accepts_text(vals_vec@[idx as int]@));
                if m < idx {
                    assert(old(batches)@[m].accepts_text(vals_vec@[m]@));
                }
                if m > idx {
                    assert(old(batches)@[idx as int].accepts_text(vals_vec@[idx as int]@));
                }
            }
            return Err(DbError::CsvError("failed to parse a value into i64".to_string()));
        }
        idx = idx + 1;
    }
    Ok(())
}

/// One empty batch per column, of the column's kind.
pub fn init_batches_for_columns(col_data_vec: &Vec<ColDataWrapper>) -> (r: Vec<DataColumn>)
    ensures
        r@.len() == col_data_vec@.len(),
        forall|i: int| 0 <= i < r@.len() ==> (#[trigger] r@[i]).len_spec() == 0 && (r@[i] is Int64 <==> col_data_vec@[i] is IntColData),
{
    let mut batches: Vec<DataColumn> = Vec::new();
    let mut i: usize = 0;
    while i < col_data_vec.len()
        invariant
            i <= col_data_vec@.len(),
            batches@.len() == i,
            forall|j: int| 0 <= j < i ==> (#[trigger] batches@[j]).len_spec() == 0 && (batches@[j] is Int64
                <==> col_data_vec@[j] is IntColData),
        decreases col_data_vec@.len() - i,
    {
        match &col_data_vec[i] {
            ColDataWrapper::IntColData(_) => {
                batches.push(DataColumn::Int64(Int64Column::new(Vec::new())));
            },
            ColDataWrapper::StrColData(_) => {
                batches.push(DataColumn::Varchar(VarcharColumn::new(Vec::new())));
            },
        }
        i = i + 1;
    }
    batches
}

} // verus!

verus! {

/// The context of a problem met while running a query on a table.
pub open spec fn problem_context(query_name: Seq<char>, table_name: Seq<char>, what: Seq<char>) -> Seq<char> {
    "QueryWorker::"@ + query_name + ":: When reading table: '"@ + table_name + "' we got "@ + what
}

fn context_text(query_name: &str, table_name: &str, what: &str) -> (r: String)
    ensures
        r@ == problem_context(query_name@, table_name@, what@),
{
    let mut s = String::new();
    crate::external::std_text::string_push_str(&mut s, "QueryWorker::");
    crate::external::std_text::string_push_str(&mut s, query_name);
    crate::external::std_text::string_push_str(&mut s, ":: When reading table: '");
    crate::external::std_text::string_push_str(&mut s, table_name);
    crate::external::std_text::string_push_str(&mut s, "' we got ");
    crate::external::std_text::string_push_str(&mut s, what);
    assert(s@ =~= problem_context(query_name@, table_name@, what@));
    s
}

/// Whether `r` is the message [`msg_from_db_err`] gives for a query that
/// ended with `db_err`.
pub open spec fn err_msg_is(
    db_err: DbError,
    r: DbWorkerMsg,
    worker_id: usize,
    query_id: u128,
    table_id: u128,
    table_name: Seq<char>,
    query_name: Seq<char>,
) -> bool {
    match db_err {
        DbError::InternalDbError(e) => r matches DbWorkerMsg::InternalError(w, m) && w == worker_id && m.spec_query_id()
            == query_id && m.spec_table_id() == table_id && m.spec_problems() == seq![
            (e@, problem_context(query_name, table_name, "error"@)),
        ],
        DbError::IoError(_) => r matches DbWorkerMsg::InternalError(w, m) && w == worker_id && m.spec_query_id()
            == query_id && m.spec_table_id() == table_id && m.spec_problems().len() == 1
            && m.spec_problems()[0].1 == problem_context(query_name, table_name, "IO error"@),
        _ => r matches DbWorkerMsg::QueryFailed(w, m) && w == worker_id && m.spec_query_id() == query_id
            && m.spec_table_id() == table_id && m.spec_problems() == seq![
            (db_error_text(db_err), problem_context("handle_select"@, table_name, "error"@)),
        ],
    }
}

/// The message for a query that ended with `db_err`: an internal or I/O
/// error is reported as `InternalError` (the database is corrupted), any
/// other error as `QueryFailed`; in each case with one problem, the
/// error's text and where it happened.
pub fn msg_from_db_err(
    db_err: DbError,
    worker_id: usize,
    query_id: u128,
    table_id: u128,
    table_name: &str,
    query_name: &str,
) -> (r: DbWorkerMsg)
    ensures
        err_msg_is(db_err, r, worker_id, query_id, table_id, table_name@, query_name@),
{
    match db_err {
        DbError::InternalDbError(e) => {
            let ctx = context_text(query_name, table_name, "error");
            DbWorkerMsg::InternalError(
                worker_id,
                QueryFailureMsg::new(query_id, table_id, MultipleProblemsError::new_with_one_problem(e.as_str(), ctx.as_str())),
            )
        },
        DbError::IoError(e) => {
            let text = DbError::IoError(e).message();
            let ctx = context_text(query_name, table_name, "IO error");
            DbWorkerMsg::InternalError(
                worker_id,
                QueryFailureMsg::new(query_id, table_id, MultipleProblemsError::new_with_one_problem(text.as_str(), ctx.as_str())),
            )
        },
        _ => {
            let text = db_err.message();
            let ctx = context_text("handle_select", table_name, "error");
            DbWorkerMsg::QueryFailed(
                worker_id,
                QueryFailureMsg::new(query_id, table_id, MultipleProblemsError::new_with_one_problem(text.as_str(), ctx.as_str())),
            )
        },
    }
}

/// The message for a finished COPY: completed with the last file id of
/// each column and the number of rows, or, for an error, the message of
/// [`msg_from_db_err`].
pub fn create_copy_query_res_msg(
    res: Result<(Vec<(String, u16)>, i32), DbError>,
    worker_id: usize,
    query_id: u128,
    table_id: u128,
    table_name: &str,
) -> (r: DbWorkerMsg)
    ensures
        res matches Ok((ids, n)) ==> r matches DbWorkerMsg::QueryCompleted(w, m) && w == worker_id && m.spec_query_id()
            == query_id && m.spec_table_id() == table_id && m.spec_n_rows() == n && m.spec_res() == WorkerMsgRes::CopyRes(ids),
        res matches Err(e) ==> err_msg_is(e, r, worker_id, query_id, table_id, table_name@, COPY_QUERY_NAME@),
{
    match res {
        Ok((final_col_file_ids, n_rows)) => DbWorkerMsg::QueryCompleted(
            worker_id,
            QueryCompletionMsg::new(query_id, table_id, n_rows, WorkerMsgRes::CopyRes(final_col_file_ids)),
        ),
        Err(db_err) => msg_from_db_err(db_err, worker_id, query_id, table_id, table_name, COPY_QUERY_NAME),
    }
}

/// What a SELECT decides before reading any file: a table whose columns
/// have no files yet has no rows (completed with an empty result); columns
/// of which only some have files are an internal error; otherwise the
/// files must be read (`None`).
pub fn handle_select_start(worker_id: usize, s_q: &SelectQData) -> (r: Option<DbWorkerMsg>)
    ensures
        ({
            let cols = s_q.spec_table_metadata().columns;
            let n = crate::db::storage::metadata::count_with_files(cols);
            &&& n == cols.len() && n != 0 ==> r is None
            &&& n == 0 ==> (r matches Some(DbWorkerMsg::QueryCompleted(w, m)) && w == worker_id && m.spec_query_id()
                == s_q.spec_query_id() && m.spec_table_id() == s_q.spec_table_id() && m.spec_n_rows() == 0
                && (m.spec_res() matches WorkerMsgRes::SelectRes(q) && q.spec_row_count() == 0 && q.spec_columns().len() == 0))
            &&& n != 0 && n != cols.len() ==> (r matches Some(DbWorkerMsg::InternalError(w, m)) && w == worker_id
                && m.spec_query_id() == s_q.spec_query_id())
        }),
{
    let table_meta = s_q.table_metadata();
    match table_meta.all_column_files_are_empty() {
        Ok(true) => {
            let n_rows: i32 = 0;
            Some(DbWorkerMsg::QueryCompleted(
                worker_id,
                QueryCompletionMsg::new(s_q.query_id(), s_q.table_id(), n_rows, WorkerMsgRes::SelectRes(QueryResult::new(n_rows, Vec::new()))),
            ))
        },
        Ok(false) => None,
        Err(e) => {
            let text = e.message();
            Some(DbWorkerMsg::InternalError(
                worker_id,
                QueryFailureMsg::new(
                    s_q.query_id(),
                    s_q.table_id(),
                    MultipleProblemsError::new_with_one_problem(text.as_str(), "QueryWorker::handle_select"),
                ),
            ))
        },
    }
}

/// The message for a SELECT once its table was read: completed with the
/// result and row count, or, for an error, the message of
/// [`msg_from_db_err`].
pub fn handle_select_end(
    worker_id: usize,
    query_id: u128,
    table_id: u128,
    table_name: &str,
    query_result: Result<(QueryResult, i32), DbError>,
) -> (r: DbWorkerMsg)
    ensures
        query_result matches Ok((q, n)) ==> r matches DbWorkerMsg::QueryCompleted(w, m) && w == worker_id
            && m.spec_query_id() == query_id && m.spec_table_id() == table_id && m.spec_n_rows() == n && m.spec_res()
            == WorkerMsgRes::SelectRes(q),
        query_result matches Err(e) ==> err_msg_is(e, r, worker_id, query_id, table_id, table_name@, "SELECT"@),
{
    match query_result {
        Ok((q_res, n_rows)) => DbWorkerMsg::QueryCompleted(
            worker_id,
            QueryCompletionMsg::new(query_id, table_id, n_rows, WorkerMsgRes::SelectRes(q_res)),
        ),
        Err(db_err) => msg_from_db_err(db_err, worker_id, query_id, table_id, table_name, "SELECT"),
    }
}

} // verus!

verus! {

/// The values of a CSV row in the order of the table's `n` columns: as
/// they come without destination columns, else put in place by
/// [`row_writes`].
pub open spec fn row_in_table_order(c: CopyQueryView, index: Seq<Seq<char>>, row: Seq<Seq<char>>, n: nat) -> Seq<Seq<char>> {
    match c.dest_columns {
        None => row,
        Some(dc) => row_writes(dc, index, row, n, n),
    }
}

proof fn lemma_row_writes_at(dc: Seq<Seq<char>>, index: Seq<Seq<char>>, row: Seq<Seq<char>>, n: nat, k: nat)
    requires
        index.len() == n,
        index.no_duplicates(),
        dc.len() >= n,
        k <= n,
        forall|a: int, b: int| 0 <= a < b < n ==> dc[a] != dc[b],
        forall|j: int| 0 <= j < n ==> index.contains(#[trigger] dc[j]),
    ensures
        row_writes(dc, index, row, n, k).len() == n,
        forall|j: int, p: int|
            0 <= j < k && 0 <= p < n && index[p] == dc[j] ==> #[trigger] row_writes(dc, index, row, n, k)[p] == #[trigger] row[j],
    decreases k,
{
    lemma_row_writes_len(dc, index, row, n, k);
    if k > 0 {
        lemma_row_writes_at(dc, index, row, n, (k - 1) as nat);
        let name = dc[k - 1];
        assert(index.contains(name));
        let q = choose|q: int| 0 <= q < index.len() && index[q] == name;
        assert(last_position(index, name, q));
        let pos = choose|p: int| #[trigger] last_position(index, name, p);
        assert(pos == q);
        let prev = row_writes(dc, index, row, n, (k - 1) as nat);
        assert(row_writes(dc, index, row, n, k) == prev.update(pos, row[k - 1]));
        assert forall|j: int, p: int| 0 <= j < k && 0 <= p < n && index[p] == dc[j] implies #[trigger] row_writes(
            dc,
            index,
            row,
            n,
            k,
        )[p] == #[trigger] row[j] by {
            if j == k - 1 {
                assert(p == pos);
            } else {
                assert(dc[j] != dc[k - 1]);
                assert(p != pos);
                assert(prev[p] == row[j]);
            }
        }
    }
}

/// A COPY loads each value of a CSV row into the column it is meant for.
/// Without destination columns the row is taken as it is, in the table's
/// order. With destination columns (distinct names of the table's `n`
/// columns, whose names `index` holds once each, in order), the value at
/// position `k` of the row goes to the table column named by the `k`-th
/// destination column.
pub proof fn law_copy_row_values_land_under_their_columns(c: CopyQueryView, index: Seq<Seq<char>>, row: Seq<Seq<char>>, n: nat)
    requires
        index.len() == n,
        index.no_duplicates(),
        c.dest_columns matches Some(dc) ==> {
            &&& dc.len() >= n
            &&& forall|a: int, b: int| 0 <= a < b < n ==> dc[a] != dc[b]
            &&& forall|j: int| 0 <= j < n ==> index.contains(#[trigger] dc[j])
        },
    ensures
        c.dest_columns is None ==> row_in_table_order(c, index, row, n) == row,
        c.dest_columns matches Some(dc) ==> {
            &&& row_in_table_order(c, index, row, n).len() == n
            &&& forall|k: int, p: int|
                0 <= k < n && 0 <= p < n && index[p] == dc[k] ==> #[trigger] row_in_table_order(c, index, row, n)[p]
                    == #[trigger] row[k]
        },
{
    if let Some(dc) = c.dest_columns {
        lemma_row_writes_at(dc, index, row, n, n);
    }
}

/// Each batch accepts the value at its position (see
/// [`DataColumn::accepts_text`]).
pub open spec fn row_accepted(batches: Seq<DataColumn>, vals: Seq<Seq<char>>) -> bool {
    forall|i: int| 0 <= i < batches.len() ==> #[trigger] batches[i].accepts_text(vals[i])
}

/// Loading the rows of a CSV into batches of column values for a COPY.
#[derive(Debug)]
pub struct CsvLoad {
    batches: Vec<DataColumn>,
    row_count: i32,
}

impl View for CsvLoad {
    type V = (Seq<DataColumn>, i32);

    /// The batches and the number of rows read.
    closed spec fn view(&self) -> (Seq<DataColumn>, i32) {
        (self.batches@, self.row_count)
    }
}

impl CsvLoad {
    /// No rows read; an empty batch per column, of the column's kind.
    pub fn new(col_data_vec: &Vec<ColDataWrapper>) -> (r: CsvLoad)
        ensures
            r@.1 == 0,
            r@.0.len() == col_data_vec@.len(),
            forall|i: int| 0 <= i < r@.0.len() ==> (#[trigger] r@.0[i]).len_spec() == 0 && (r@.0[i] is Int64
                <==> col_data_vec@[i] is IntColData),
    {
        CsvLoad { batches: init_batches_for_columns(col_data_vec), row_count: 0 }
    }

    pub fn batches(&self) -> (r: &Vec<DataColumn>)
        ensures
            r@ == self@.0,
    {
        &self.batches
    }

    pub fn row_count(&self) -> (r: i32)
        ensures
            r == self@.1,
    {
        self.row_count
    }

    /// Empties every batch, after the batches were saved.
    pub fn clear_batches(&mut self)
        ensures
            final(self)@.1 == old(self)@.1,
            final(self)@.0.len() == old(self)@.0.len(),
            forall|i: int| 0 <= i < old(self)@.0.len() ==> (#[trigger] final(self)@.0[i]).len_spec() == 0
                && final(self)@.0[i].is_int() == old(self)@.0[i].is_int(),
    {
        let mut i: usize = 0;
        while i < self.batches.len()
            invariant
                i <= self.batches@.len(),
                self@.1 == old(self)@.1,
                self.batches@.len() == old(self)@.0.len(),
                forall|j: int| 0 <= j < i ==> (#[trigger] self.batches@[j]).len_spec() == 0 && self.batches@[j].is_int()
                    == old(self)@.0[j].is_int(),
                forall|j: int| i <= j < self.batches@.len() ==> #[trigger] self.batches@[j] == old(self)@.0[j],
            decreases self.batches@.len() - i,
        {
            self.batches[i].clear_batch();
            i = i + 1;
        }
    }

    /// Takes one CSV row: counts it (more than `i32::MAX` rows is
    /// `SizeExceeded`), checks its length (without destination columns it
    /// must have one value per column, with them at least that many; else
    /// `CsvError`), and adds its values in table order (see
    /// [`row_in_table_order`] and [`push_values_to_batches`]). Answers
    /// whether a full batch of rows is ready to be saved.
    pub fn push_row(
        &mut self,
        query_data: &CopyQuery,
        col_name_to_idx_map: &ColumnIndexMap,
        table_name: &str,
        row: &Vec<String>,
    ) -> (r: Result<bool, DbError>)
        requires
            col_name_to_idx_map@.len() <= old(self)@.0.len(),
            query_data@.dest_columns matches Some(dc) ==> (dc.len() >= old(self)@.0.len() ==> forall|i: int|
                0 <= i < old(self)@.0.len() ==> col_name_to_idx_map@.contains(#[trigger] dc[i])),
        ensures
            final(self)@.0.len() == old(self)@.0.len(),
            old(self)@.1 == i32::MAX ==> r is Err && r->Err_0 is SizeExceeded,
            old(self)@.1 < i32::MAX && (match query_data@.dest_columns {
                None => row@.len() != old(self)@.0.len(),
                Some(_) => row@.len() < old(self)@.0.len(),
            }) ==> r is Err && r->Err_0 is CsvError,
            old(self)@.1 < i32::MAX && (query_data@.dest_columns matches Some(dc) && row@.len() >= old(self)@.0.len()
                && dc.len() < old(self)@.0.len()) ==> r is Err && r->Err_0 is InternalDbError,
            old(self)@.1 < i32::MAX && (match query_data@.dest_columns {
                None => row@.len() == old(self)@.0.len(),
                Some(dc) => row@.len() >= old(self)@.0.len() && dc.len() >= old(self)@.0.len(),
            }) ==> (r is Ok <==> row_accepted(
                old(self)@.0,
                row_in_table_order(query_data@, col_name_to_idx_map@, row@.map_values(|s: String| s@), old(self)@.0.len()),
            )),
            r matches Ok(save) ==> ({
                let n = old(self)@.0.len();
                let vals = row_in_table_order(query_data@, col_name_to_idx_map@, row@.map_values(|s: String| s@), n);
                &&& final(self)@.1 == old(self)@.1 + 1
                &&& save == (final(self)@.1 % (BATCH_SIZE as i32) == 0)
                &&& forall|i: int| 0 <= i < n ==> #[trigger] old(self)@.0[i].pushed_text(final(self)@.0[i], vals[i])
            }),
    {
        let n = self.batches.len();
        self.row_count = match self.row_count.checked_add(1) {
            Some(val) => val,
            None => {
                return Err(DbError::SizeExceeded {
                    msg: "while doing copy query, we read too many rows from csv".to_string(),
                    max: 2147483647usize,
                });
            },
        };
        let row_idx = self.row_count;
        match query_data.dest_columns() {
            None => {
                if row.len() != n {
                    return Err(DbError::CsvError(
                        "a csv row has a different number of columns than the table schema".to_string(),
                    ));
                }
                let pushed = push_values_to_batches(row, &mut self.batches, row_idx, table_name);
                proof {
                    assert forall|i: int| 0 <= i < n implies (row@.map_values(|s: String| s@))[i] == #[trigger] row@[i]@ by {}
                    let vals = row@.map_values(|s: String| s@);
                    if pushed is Err {
                        let m = choose|m: int| 0 <= m < row@.len() && !old(self)@.0[m].accepts_text(row@[m]@);
                        assert(vals[m] == row@[m]@);
                        assert(!row_accepted(old(self)@.0, vals));
                    } else {
                        assert forall|i: int| 0 <= i < old(self)@.0.len() implies #[trigger] old(self)@.0[i].accepts_text(vals[i]) by {
                            assert(vals[i] == row@[i]@);
                        }
                    }
                }
                pushed?;
            },
            Some(dest_cols) => {
                if row.len() < n {
                    return Err(DbError::CsvError("a csv row has fewer columns than the table schema".to_string()));
                }
                proof {
                    let dc = dest_cols@.map_values(|s: String| s@);
                    assert(query_data@.dest_columns == Some(dc));
                    assert(n == old(self)@.0.len());
                    assert forall|i: int| 0 <= i < n && dest_cols@.len() >= n implies col_name_to_idx_map@.contains(
                        #[trigger] dest_cols@[i]@,
                    ) by {
                        assert(dc[i] == dest_cols@[i]@);
                        assert(query_data@.dest_columns->Some_0 == dc);
                        assert(col_name_to_idx_map@.contains(query_data@.dest_columns->Some_0[i]));
                    }
                }
                let mapped = map_csv_row_to_table_order(dest_cols, n, col_name_to_idx_map, row)?;
                proof {
                    lemma_row_writes_len(
                        dest_cols@.map_values(|s: String| s@),
                        col_name_to_idx_map@,
                        row@.map_values(|s: String| s@),
                        n as nat,
                        n as nat,
                    );
                }
                let pushed = push_values_to_batches(&mapped, &mut self.batches, row_idx, table_name);
                proof {
                    assert forall|i: int| 0 <= i < n implies (mapped@.map_values(|s: String| s@))[i] == #[trigger] mapped@[i]@ by {}
                    let vals = mapped@.map_values(|s: String| s@);
                    if pushed is Err {
                        let m = choose|m: int| 0 <= m < mapped@.len() && !old(self)@.0[m].accepts_text(mapped@[m]@);
                        assert(vals[m] == mapped@[m]@);
                        assert(!row_accepted(old(self)@.0, vals));
                    } else {
                        assert forall|i: int| 0 <= i < old(self)@.0.len() implies #[trigger] old(self)@.0[i].accepts_text(vals[i]) by {
                            assert(vals[i] == mapped@[i]@);
                        }
                    }
                }
                pushed?;
            },
        }
        Ok(self.row_count % (BATCH_SIZE as i32) == 0)
    }

    /// Ends the load: a CSV without rows is a `CsvError`; otherwise answers
    /// whether rows are left in the batches to be saved.
    pub fn finish(&self) -> (r: Result<bool, DbError>)
        requires
            self@.1 >= 0,
        ensures
            r is Ok <==> self@.1 != 0,
            r is Err ==> r->Err_0 is CsvError,
            r matches Ok(b) ==> b == (self@.1 % (BATCH_SIZE as i32) != 0),
    {
        if self.row_count == 0 {
            return Err(DbError::CsvError("the csv has 0 rows, which a COPY does not accept".to_string()));
        }
        Ok(self.row_count % (BATCH_SIZE as i32) != 0)
    }
}

} // verus!

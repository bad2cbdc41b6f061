//! What the database knows of its tables: their columns, the files of each
//! column, and the state of each table (deletion mark, copy lock, number of
//! queries working on it).
use vstd::prelude::*;
use vstd::utf8::{encode_utf8, is_ascii_chars};
use crate::db::constants::{LogicalColType, MAX_COL_NAME_LEN};
use crate::db::errors::DbError;
use crate::db::storage::col_data::ColData;
use crate::db::storage::col_header::{header_of, ColHeader};
use crate::db::storage::string_handlers::{col_name_error_is, col_name_valid, is_ascii_letter, is_word_char};
use crate::db::storage::text::{byte_len, decimal_text, push_decimal, str_byte_len};
use crate::external::std_text::string_push_str;
use crate::external::uuid_api::{new_v4_id, uuid_hyphenated, uuid_to_string};
use crate::external::regex_api::regex_match;
use crate::schemas::column::Column;
use crate::schemas::query::{copy_strings, query_table, string_seq_view, with_status, AllowedQuery, AllowedQueryView, Query, QueryResult, QueryStatus, QueryTableName};
use crate::db::manager::messages::{BaseQueryDataInfo, CopyQData, QueryData, SelectQData};
use crate::schemas::table::{ShallowTable, TableSchema};

verus! {

// ---------------------------------------------------------------------------
// Columns
// ---------------------------------------------------------------------------

/// What is known of a column: its name, its type and the paths of its data
/// files, in order.
pub ghost struct ColMetadataView {
    pub name: Seq<char>,
    pub col_type: LogicalColType,
    pub files: Seq<Seq<char>>,
}

/// A column of a table and the paths of its data files.
#[derive(Debug)]
pub struct ColMetadata {
    c_name: String,
    c_type: LogicalColType,
    c_files: Vec<String>,
}

impl View for ColMetadata {
    type V = ColMetadataView;

    closed spec fn view(&self) -> ColMetadataView {
        ColMetadataView { name: self.c_name@, col_type: self.c_type, files: string_seq_view(self.c_files@) }
    }
}

impl ColMetadata {
    /// A column without files.
    pub fn new(c_name: &str, c_type: LogicalColType) -> (r: ColMetadata)
        ensures
            r@ == (ColMetadataView { name: c_name@, col_type: c_type, files: Seq::empty() }),
    {
        let r = ColMetadata { c_name: c_name.to_owned(), c_type, c_files: Vec::new() };
        assert(r@.files =~= Seq::<Seq<char>>::empty());
        r
    }

    /// Whether the column has at least one data file.
    pub fn column_files_present(&self) -> (r: bool)
        ensures
            r == (self@.files.len() > 0),
    {
        self.c_files.len() > 0
    }

    pub fn c_name(&self) -> (r: &str)
        ensures
            r@ == self@.name,
    {
        self.c_name.as_str()
    }

    pub fn c_type(&self) -> (r: LogicalColType)
        ensures
            r == self@.col_type,
    {
        self.c_type
    }

    /// The id the next data file of the column gets: files are numbered
    /// from 0, so this is the number of files.
    pub fn get_first_free_col_file_id(&self) -> (r: usize)
        ensures
            r == self@.files.len(),
    {
        self.c_files.len()
    }

    /// Records one more data file.
    pub fn push_col_file(&mut self, file_path: String)
        ensures
            final(self)@ == (ColMetadataView { files: old(self)@.files.push(file_path@), ..old(self)@ }),
    {
        let ghost before = self.c_files@;
        self.c_files.push(file_path);
        assert(string_seq_view(self.c_files@) =~= string_seq_view(before).push(file_path@));
    }

    /// The file paths.
    pub fn c_files(&self) -> (r: &Vec<String>)
        ensures
            string_seq_view(r@) == self@.files,
    {
        &self.c_files
    }

    /// A copy.
    pub fn duplicate(&self) -> (r: ColMetadata)
        ensures
            r@ == self@,
    {
        ColMetadata { c_name: self.c_name.clone(), c_type: self.c_type, c_files: copy_strings(&self.c_files) }
    }
}

/// The views of a sequence of columns.
pub open spec fn col_views(s: Seq<ColMetadata>) -> Seq<ColMetadataView> {
    s.map_values(|c: ColMetadata| c@)
}

/// Copies a sequence of columns.
pub fn copy_columns(v: &Vec<ColMetadata>) -> (r: Vec<ColMetadata>)
    ensures
        col_views(r@) == col_views(v@),
{
    let mut out: Vec<ColMetadata> = Vec::new();
    let mut i: usize = 0;
    while i < v.len()
        invariant
            i <= v@.len(),
            col_views(out@) == col_views(v@.take(i as int)),
        decreases v@.len() - i,
    {
        let ghost prev = out@;
        let c = v[i].duplicate();
        out.push(c);
        proof {
            assert(out@ == prev.push(c));
            assert(v@.take(i + 1) =~= v@.take(i as int).push(v@[i as int]));
            assert(col_views(out@) =~= col_views(prev).push(c@));
            assert(col_views(v@.take(i + 1)) =~= col_views(v@.take(i as int)).push(v@[i as int]@));
        }
        i = i + 1;
    }
    assert(v@.take(i as int) =~= v@);
    out
}

/// The columns a table may be loaded with: each name at most
/// [`MAX_COL_NAME_LEN`] bytes long and ASCII.
pub open spec fn columns_ok(cols: Seq<ColMetadataView>) -> bool {
    forall|i: int| 0 <= i < cols.len() ==> {
        &&& #[trigger] byte_len(cols[i].name) <= MAX_COL_NAME_LEN
        &&& is_ascii_chars(cols[i].name)
    }
}

/// The error [`are_columns_ok`] gives for the first column that breaks the
/// rule: a name too long is `SizeExceeded`, a name with non-ASCII characters
/// `InvalidColumnName` carrying that name.
pub open spec fn column_error_is(c: ColMetadataView, e: DbError) -> bool {
    if byte_len(c.name) > MAX_COL_NAME_LEN {
        e matches DbError::SizeExceeded { max, .. } && max == MAX_COL_NAME_LEN
    } else {
        e matches DbError::InvalidColumnName { name, .. } && name@ == c.name
    }
}

/// Checks [`columns_ok`]; the error is that of the first bad column.
pub fn are_columns_ok(columns: &Vec<ColMetadata>, table_name: &str) -> (r: Result<(), DbError>)
    ensures
        r is Ok <==> columns_ok(col_views(columns@)),
        r matches Err(e) ==> exists|i: int|
            0 <= i < columns@.len() && columns_ok(col_views(columns@.take(i))) && !columns_ok(
                seq![columns@[i]@],
            ) && column_error_is(#[trigger] columns@[i]@, e),
{
    let mut i: usize = 0;
    while i < columns.len()
        invariant
            i <= columns@.len(),
            columns_ok(col_views(columns@.take(i as int))),
        decreases columns@.len() - i,
    {
        let col_name = columns[i].c_name.as_str();
        let bad_len = str_byte_len(col_name) > MAX_COL_NAME_LEN;
        let ascii = col_name.is_ascii();
        proof {
            assert(columns@[i as int]@.name == col_name@);
        }
        if bad_len {
            let e = DbError::SizeExceeded {
                msg: "column name length exceeds MAX_COL_NAME_LEN".to_string(),
                max: MAX_COL_NAME_LEN,
            };
            proof {
                assert(col_views(columns@)[i as int] == columns@[i as int]@);
                let one = seq![columns@[i as int]@];
                assert(one[0] == columns@[i as int]@);
                assert(!columns_ok(one));
                assert(!columns_ok(col_views(columns@)));
            }
            return Err(e);
        }
        if !ascii {
            let e = DbError::InvalidColumnName {
                msg: "column name has non-ASCII characters".to_string(),
                name: columns[i].c_name.clone(),
            };
            proof {
                assert(col_views(columns@)[i as int] == columns@[i as int]@);
                let one = seq![columns@[i as int]@];
                assert(one[0] == columns@[i as int]@);
                assert(!columns_ok(one));
                assert(!columns_ok(col_views(columns@)));
            }
            return Err(e);
        }
        proof {
            let s = col_views(columns@.take(i + 1));
            assert forall|j: int| 0 <= j < s.len() implies #[trigger] byte_len(s[j].name) <= MAX_COL_NAME_LEN
                && is_ascii_chars(s[j].name) by {
                if j < i {
                    assert(s[j] == col_views(columns@.take(i as int))[j]);
                } else {
                    assert(s[j] == columns@[i as int]@);
                }
            }
        }
        i = i + 1;
    }
    assert(columns@.take(i as int) =~= columns@);
    let _ = table_name;
    Ok(())
}

// ---------------------------------------------------------------------------
// Paths
// ---------------------------------------------------------------------------

/// `{db_data_dir}/{table_id}_{table_name}`, the id in hyphenated form.
pub open spec fn dir_path_text(db_data_dir: Seq<char>, table_id: u128, table_name: Seq<char>) -> Seq<char> {
    db_data_dir + "/"@ + uuid_hyphenated(table_id) + "_"@ + table_name
}

/// `{db_data_dir}/{table_id}_{table_name}/{col_name}_{idx}`.
pub open spec fn file_path_text(
    db_data_dir: Seq<char>,
    table_id: u128,
    table_name: Seq<char>,
    col_name: Seq<char>,
    idx: nat,
) -> Seq<char> {
    dir_path_text(db_data_dir, table_id, table_name) + "/"@ + col_name + "_"@ + decimal_text(idx)
}

/// The directory of a table: `{db_data_dir}/{table_id}_{table_name}`.
pub fn create_dir_path(db_data_dir_path: &str, table_id: &u128, table_name: &str) -> (r: String)
    ensures
        r@ == dir_path_text(db_data_dir_path@, *table_id, table_name@),
{
    let mut s = db_data_dir_path.to_owned();
    string_push_str(&mut s, "/");
    let id_text = uuid_to_string(*table_id);
    string_push_str(&mut s, id_text.as_str());
    string_push_str(&mut s, "_");
    string_push_str(&mut s, table_name);
    s
}

/// The path of a column's data file:
/// `{db_data_dir}/{table_id}_{table_name}/{col_name}_{idx}`.
pub fn create_file_path(
    db_data_dir_path: &str,
    table_id: &u128,
    table_name: &str,
    col_name: &str,
    idx: usize,
) -> (r: String)
    ensures
        r@ == file_path_text(db_data_dir_path@, *table_id, table_name@, col_name@, idx as nat),
{
    let mut s = create_dir_path(db_data_dir_path, table_id, table_name);
    string_push_str(&mut s, "/");
    string_push_str(&mut s, col_name);
    string_push_str(&mut s, "_");
    push_decimal(&mut s, idx);
    s
}

} // verus!

verus! {

// ---------------------------------------------------------------------------
// Tables
// ---------------------------------------------------------------------------

/// What is known of a table.
pub ghost struct TableMetadataView {
    pub name: Seq<char>,
    pub id: u128,
    pub columns: Seq<ColMetadataView>,
    pub dir_path: Seq<char>,
}

/// A table: name, id, columns in order, and the directory of its files.
#[derive(Debug)]
pub struct TableMetadata {
    table_name: String,
    table_id: u128,
    columns: Vec<ColMetadata>,
    table_dir_path: String,
}

impl View for TableMetadata {
    type V = TableMetadataView;

    closed spec fn view(&self) -> TableMetadataView {
        TableMetadataView {
            name: self.table_name@,
            id: self.table_id,
            columns: col_views(self.columns@),
            dir_path: self.table_dir_path@,
        }
    }
}

/// The schema of a table: its name and its columns' names and types.
pub open spec fn schema_of(t: TableMetadataView) -> (Seq<char>, Seq<(Seq<char>, LogicalColType)>) {
    (t.name, t.columns.map_values(|c: ColMetadataView| (c.name, c.col_type)))
}

/// How many of the columns have data files.
pub open spec fn count_with_files(cols: Seq<ColMetadataView>) -> nat
    decreases cols.len(),
{
    if cols.len() == 0 {
        0
    } else {
        count_with_files(cols.drop_last()) + if cols.last().files.len() > 0 { 1nat } else { 0nat }
    }
}

proof fn lemma_count_with_files_bound(cols: Seq<ColMetadataView>)
    ensures
        count_with_files(cols) <= cols.len(),
    decreases cols.len(),
{
    if cols.len() > 0 {
        lemma_count_with_files_bound(cols.drop_last());
    }
}

/// The column data a COPY starts from for one column: the header of the
/// column's next file (numbered by how many files it has, as a `u16`), no
/// overflow, no data.
pub open spec fn next_file_header(c: ColMetadataView) -> crate::db::storage::col_header::ColHeaderView {
    header_of(c.files.len() as u16, c.col_type, false, 0, c.name)
}

/// Column data of either type.
pub enum ColDataWrapper {
    IntColData(ColData<i64>),
    StrColData(ColData<String>),
}

/// A COPY into table `t` writes each column's new rows to a file of its
/// own: where `v` is the column data [`TableMetadata::create_col_data_vec`]
/// gives for `t`, the data for each column (with at most `u16::MAX` files)
/// goes to the file whose id is the number of files the column already has
/// (its first free id), never to one of the column's existing files; it is
/// a header of the column's own name and type, with no overflow and no
/// data yet, and the data is empty.
pub proof fn law_copy_writes_new_column_files(t: TableMetadataView, v: Seq<ColDataWrapper>)
    requires
        v.len() == t.columns.len(),
        forall|i: int| 0 <= i < v.len() ==> {
            &&& (#[trigger] v[i]).header_view() == next_file_header(t.columns[i])
            &&& v[i].is_fresh()
            &&& (v[i] is IntColData <==> t.columns[i].col_type == LogicalColType::INT64)
        },
    ensures
        forall|i: int| 0 <= i < v.len() && t.columns[i].files.len() <= u16::MAX ==> (#[trigger] v[i]).header_view().col_id
            == t.columns[i].files.len(),
        forall|i: int|
            0 <= i < v.len() ==> {
                let h = (#[trigger] v[i]).header_view();
                &&& h.col_name == t.columns[i].name
                &&& h.col_type == t.columns[i].col_type
                &&& !h.is_overflow
                &&& h.size_of_data == 0
            },
        forall|i: int|
            0 <= i < v.len() ==> match #[trigger] v[i] {
                ColDataWrapper::IntColData(d) => d@.data.len() == 0 && d@.n_rows == 0 && t.columns[i].col_type
                    == LogicalColType::INT64,
                ColDataWrapper::StrColData(d) => d@.data.len() == 0 && d@.n_rows == 0 && t.columns[i].col_type
                    == LogicalColType::VARCHAR,
            },
{
}

impl ColDataWrapper {
    /// The header of the file the data goes to next.
    pub open spec fn header_view(&self) -> crate::db::storage::col_header::ColHeaderView {
        match self {
            ColDataWrapper::IntColData(c) => c@.header,
            ColDataWrapper::StrColData(c) => c@.header,
        }
    }

    /// Whether nothing has been added yet and nothing written.
    pub open spec fn is_fresh(&self) -> bool {
        match self {
            ColDataWrapper::IntColData(c) => c@.data.len() == 0 && c@.n_rows == 0 && c@.first_time_saving,
            ColDataWrapper::StrColData(c) => c@.data.len() == 0 && c@.n_rows == 0 && c@.first_time_saving,
        }
    }

    /// The name and last file id of the column, as recorded after a COPY.
    pub fn name_and_file_id(&self) -> (r: (String, u16))
        ensures
            r.0@ == self.header_view().col_name,
            r.1 == self.header_view().col_id,
    {
        match self {
            ColDataWrapper::IntColData(c) => (c.header().col_name().clone(), c.col_file_id()),
            ColDataWrapper::StrColData(c) => (c.header().col_name().clone(), c.col_file_id()),
        }
    }
}

impl TableMetadata {
    pub fn new(name: &str, id: &u128, columns: Vec<ColMetadata>, dir_path: &str) -> (r: TableMetadata)
        ensures
            r@ == (TableMetadataView {
                name: name@,
                id: *id,
                columns: col_views(columns@),
                dir_path: dir_path@,
            }),
    {
        TableMetadata {
            table_name: name.to_owned(),
            table_id: *id,
            columns,
            table_dir_path: dir_path.to_owned(),
        }
    }

    /// The schema of the table (see [`schema_of`]).
    pub fn into_table_schema(&self) -> (r: TableSchema)
        ensures
            r@ == schema_of(self@),
    {
        let mut t_schema = TableSchema::new(self.table_name.as_str());
        let mut i: usize = 0;
        while i < self.columns.len()
            invariant
                i <= self.columns@.len(),
                t_schema@.0 == self@.name,
                t_schema@.1 == schema_of(self@).1.take(i as int),
            decreases self.columns@.len() - i,
        {
            let c = &self.columns[i];
            let col = Column::new(c.c_name.as_str(), &c.c_type);
            t_schema.push_col(&col);
            proof {
                assert(schema_of(self@).1.take(i + 1) =~= schema_of(self@).1.take(i as int).push(
                    (c@.name, c@.col_type),
                ));
                assert(self@.columns[i as int] == c@);
            }
            i = i + 1;
        }
        assert(schema_of(self@).1.take(i as int) =~= schema_of(self@).1);
        t_schema
    }

    pub fn table_name(&self) -> (r: &str)
        ensures
            r@ == self@.name,
    {
        self.table_name.as_str()
    }

    pub fn table_id(&self) -> (r: u128)
        ensures
            r == self@.id,
    {
        self.table_id
    }

    pub fn columns(&self) -> (r: &Vec<ColMetadata>)
        ensures
            col_views(r@) == self@.columns,
    {
        &self.columns
    }

    pub fn table_dir_path(&self) -> (r: &str)
        ensures
            r@ == self@.dir_path,
    {
        self.table_dir_path.as_str()
    }

    /// Whether no column has data files yet. Either all columns have files
    /// or none has; anything else is reported as `InternalDbError`.
    pub fn all_column_files_are_empty(&self) -> (r: Result<bool, DbError>)
        ensures
            ({
                let n = count_with_files(self@.columns);
                &&& r is Err <==> (n != 0 && n != self@.columns.len())
                &&& r is Err ==> r->Err_0 is InternalDbError
                &&& r matches Ok(b) ==> b == (n == 0)
            }),
    {
        let mut presence_count: usize = 0;
        let mut i: usize = 0;
        while i < self.columns.len()
            invariant
                i <= self.columns@.len(),
                presence_count == count_with_files(self@.columns.take(i as int)),
            decreases self.columns@.len() - i,
        {
            proof {
                lemma_count_with_files_bound(self@.columns.take(i as int));
                assert(self@.columns.take(i + 1).drop_last() =~= self@.columns.take(i as int));
                assert(self@.columns[i as int] == self.columns@[i as int]@);
            }
            if self.columns[i].column_files_present() {
                presence_count = presence_count + 1;
            }
            i = i + 1;
        }
        assert(self@.columns.take(i as int) =~= self@.columns);
        if presence_count != 0 && presence_count != self.columns.len() {
            return Err(DbError::InternalDbError(
                "some columns of the table have files and others don't".to_string(),
            ));
        }
        Ok(presence_count == 0)
    }

    /// Column data to start a COPY with, one per column in order: for each
    /// column, the header of its next file (see [`next_file_header`]).
    /// Fails, with the error of [`ColHeader::new`], at the first column
    /// whose name is not a valid column name.
    pub fn create_col_data_vec(&self) -> (r: Result<Vec<ColDataWrapper>, DbError>)
        ensures
            r is Ok <==> (forall|i: int| 0 <= i < self@.columns.len() ==> col_name_valid(#[trigger] self@.columns[i].name)),
            r matches Ok(v) ==> {
                &&& v@.len() == self@.columns.len()
                &&& forall|i: int| 0 <= i < v@.len() ==> {
                    &&& (#[trigger] v@[i]).header_view() == next_file_header(self@.columns[i])
                    &&& v@[i].is_fresh()
                    &&& (v@[i] is IntColData <==> self@.columns[i].col_type == LogicalColType::INT64)
                }
            },
            r matches Ok(v) ==> forall|i: int|
                0 <= i < v@.len() && self@.columns[i].files.len() <= u16::MAX ==> (#[trigger] v@[i]).header_view().col_id
                    == self@.columns[i].files.len(),
            r matches Err(e) ==> exists|i: int| 0 <= i < self@.columns.len() && !col_name_valid(#[trigger] self@.columns[i].name)
                && col_name_error_is(self@.columns[i].name, e),
    {
        let mut res_vec: Vec<ColDataWrapper> = Vec::new();
        let mut i: usize = 0;
        while i < self.columns.len()
            invariant
                i <= self.columns@.len(),
                res_vec@.len() == i,
                forall|j: int| 0 <= j < i ==> col_name_valid(#[trigger] self@.columns[j].name),
                forall|j: int| 0 <= j < i ==> {
                    &&& (#[trigger] res_vec@[j]).header_view() == next_file_header(self@.columns[j])
                    &&& res_vec@[j].is_fresh()
                    &&& (res_vec@[j] is IntColData <==> self@.columns[j].col_type == LogicalColType::INT64)
                },
            decreases self.columns@.len() - i,
        {
            let col_meta = &self.columns[i];
            proof {
                assert(self@.columns[i as int] == col_meta@);
            }
            let col_file_id = #[verifier::truncate] (col_meta.c_files.len() as u16);
            let col_type = col_meta.c_type;
            let name = col_meta.c_name.clone();
            assert(name@ == self@.columns[i as int].name);
            let header = match ColHeader::new(col_file_id, col_type, false, 0, name) {
                Ok(h) => h,
                Err(e) => {
                    assert(!col_name_valid(self@.columns[i as int].name));
                    return Err(e);
                },
            };
            let col_data = match col_type {
                LogicalColType::INT64 => {
                    let x = match ColData::<i64>::new(header) {
                        Ok(x) => x,
                        Err(e) => {
                            return Err(e);
                        },
                    };
                    ColDataWrapper::IntColData(x)
                },
                LogicalColType::VARCHAR => {
                    let x = match ColData::<String>::new(header) {
                        Ok(x) => x,
                        Err(e) => {
                            return Err(e);
                        },
                    };
                    ColDataWrapper::StrColData(x)
                },
            };
            res_vec.push(col_data);
            i = i + 1;
        }
        Ok(res_vec)
    }

    /// A copy.
    pub fn duplicate(&self) -> (r: TableMetadata)
        ensures
            r@ == self@,
    {
        TableMetadata {
            table_name: self.table_name.clone(),
            table_id: self.table_id,
            columns: copy_columns(&self.columns),
            table_dir_path: self.table_dir_path.clone(),
        }
    }

    /// Checks the number of rows read from one more column against the
    /// number read from the columns before it (`None` before the first
    /// column): the first sets it, the others must agree. A count above
    /// `i32::MAX`, or one that disagrees, is an `InternalDbError`.
    pub fn check_row_count(row_count: &mut Option<i32>, curr_col_rows: usize, table_name: &str) -> (r: Result<(), DbError>)
        ensures
            match *old(row_count) {
                None => {
                    &&& r is Ok <==> curr_col_rows <= i32::MAX
                    &&& r is Ok ==> *final(row_count) == Some(curr_col_rows as i32)
                },
                Some(v) => {
                    &&& r is Ok <==> (v >= 0 && v as int == curr_col_rows as int)
                    &&& *final(row_count) == *old(row_count)
                },
            },
            r is Err ==> r->Err_0 is InternalDbError,
            r is Err ==> *final(row_count) == *old(row_count),
    {
        let _ = table_name;
        match *row_count {
            None => {
                if curr_col_rows > 2147483647usize {
                    return Err(DbError::InternalDbError("number of rows in table greater than i32".to_string()));
                }
                *row_count = Some(curr_col_rows as i32);
                Ok(())
            },
            Some(val) => {
                if val < 0 || val as usize != curr_col_rows {
                    return Err(DbError::InternalDbError(
                        "table has columns with different number of rows".to_string(),
                    ));
                }
                Ok(())
            },
        }
    }
}

} // verus!

verus! {

// ---------------------------------------------------------------------------
// Tables by id
// ---------------------------------------------------------------------------

/// In a sequence without repeats, the index of an element is where it stands.
pub proof fn lemma_index_of_unique<A>(s: Seq<A>, i: int)
    requires
        s.no_duplicates(),
        0 <= i < s.len(),
    ensures
        s.contains(s[i]),
        s.index_of(s[i]) == i,
{
    assert(s.contains(s[i]));
    let j = s.index_of(s[i]);
    assert(0 <= j < s.len() && s[j] == s[i]);
}

/// The ids of a sequence of (id, table) entries.
pub open spec fn entry_ids(s: Seq<(u128, TableMetadata)>) -> Seq<u128> {
    s.map_values(|e: (u128, TableMetadata)| e.0)
}

/// Tables by id; the ids are kept in the order the tables were added.
#[derive(Debug)]
pub struct TableMap {
    entries: Vec<(u128, TableMetadata)>,
}

impl TableMap {
    /// The ids, in the order the tables were added.
    pub closed spec fn ids(&self) -> Seq<u128> {
        entry_ids(self.entries@)
    }

    /// No id occurs twice.
    pub closed spec fn wf(&self) -> bool {
        self.ids().no_duplicates()
    }
}

impl View for TableMap {
    type V = Map<u128, TableMetadataView>;

    closed spec fn view(&self) -> Map<u128, TableMetadataView> {
        Map::new(|k: u128| self.ids().contains(k), |k: u128| self.entries@[self.ids().index_of(k)].1@)
    }
}

impl TableMap {
    /// The ids are the keys of the map, each once.
    pub proof fn lemma_ids(&self)
        requires
            self.wf(),
        ensures
            self.ids().no_duplicates(),
            forall|k: u128| #[trigger] self@.contains_key(k) <==> self.ids().contains(k),
            self@.dom() == self.ids().to_set(),
            self@.dom().finite(),
            self@.len() == self.ids().len(),
    {
        assert(self@.dom() =~= self.ids().to_set());
        self.ids().unique_seq_to_set();
    }

    proof fn lemma_entry(&self, i: int)
        requires
            self.wf(),
            0 <= i < self.entries@.len(),
        ensures
            self.ids()[i] == self.entries@[i].0,
            self@.contains_key(self.entries@[i].0),
            self@[self.entries@[i].0] == self.entries@[i].1@,
    {
        lemma_index_of_unique(self.ids(), i);
    }

    /// No tables.
    pub fn new() -> (r: TableMap)
        ensures
            r.wf(),
            r@ == Map::<u128, TableMetadataView>::empty(),
            r.ids() == Seq::<u128>::empty(),
    {
        let r = TableMap { entries: Vec::new() };
        assert(r.ids() =~= Seq::<u128>::empty());
        assert(r@ =~= Map::<u128, TableMetadataView>::empty());
        r
    }

    fn find(&self, id: u128) -> (r: Option<usize>)
        requires
            self.wf(),
        ensures
            match r {
                Some(i) => i < self.entries@.len() && self.entries@[i as int].0 == id && self.ids().index_of(id)
                    == i,
                None => !self.ids().contains(id),
            },
    {
        let mut i: usize = 0;
        while i < self.entries.len()
            invariant
                self.wf(),
                i <= self.entries@.len(),
                forall|j: int| 0 <= j < i ==> self.entries@[j].0 != id,
            decreases self.entries@.len() - i,
        {
            if self.entries[i].0 == id {
                proof {
                    lemma_index_of_unique(self.ids(), i as int);
                }
                return Some(i);
            }
            i = i + 1;
        }
        proof {
            if self.ids().contains(id) {
                let j = choose|j: int| 0 <= j < self.ids().len() && self.ids()[j] == id;
                assert(self.entries@[j].0 == id);
            }
        }
        None
    }

    /// Number of tables.
    pub fn len(&self) -> (r: usize)
        requires
            self.wf(),
        ensures
            r == self@.len(),
            r == self.ids().len(),
    {
        proof {
            self.lemma_ids();
        }
        self.entries.len()
    }

    pub fn contains_key(&self, id: &u128) -> (r: bool)
        requires
            self.wf(),
        ensures
            r == self@.contains_key(*id),
    {
        proof {
            self.lemma_ids();
        }
        match self.find(*id) {
            Some(i) => {
                proof {
                    lemma_index_of_unique(self.ids(), i as int);
                }
                true
            },
            None => false,
        }
    }

    pub fn get(&self, id: &u128) -> (r: Option<&TableMetadata>)
        requires
            self.wf(),
        ensures
            r is Some == self@.contains_key(*id),
            r matches Some(t) ==> t@ == self@[*id],
    {
        match self.find(*id) {
            Some(i) => {
                proof {
                    self.lemma_entry(i as int);
                }
                Some(&self.entries[i].1)
            },
            None => None,
        }
    }

    /// The `i`-th table in the order of [`TableMap::ids`].
    pub fn entry_at(&self, i: usize) -> (r: (u128, &TableMetadata))
        requires
            self.wf(),
            i < self.ids().len(),
        ensures
            r.0 == self.ids()[i as int],
            self@.contains_key(r.0),
            r.1@ == self@[r.0],
    {
        proof {
            self.lemma_entry(i as int);
        }
        (self.entries[i].0, &self.entries[i].1)
    }

    /// Puts a table under `id`, replacing the table there, if any, which
    /// is returned. A new id goes to the end of the order.
    pub fn insert(&mut self, id: u128, meta: TableMetadata) -> (r: Option<TableMetadata>)
        requires
            old(self).wf(),
        ensures
            final(self).wf(),
            final(self)@ == old(self)@.insert(id, meta@),
            r is Some == old(self)@.contains_key(id),
            r matches Some(t) ==> t@ == old(self)@[id],
            final(self).ids() == if old(self)@.contains_key(id) {
                old(self).ids()
            } else {
                old(self).ids().push(id)
            },
    {
        let ghost meta_view = meta@;
        match self.find(id) {
            Some(i) => {
                proof {
                    self.lemma_entry(i as int);
                }
                let (_, old_meta) = self.entries.remove(i);
                self.entries.insert(i, (id, meta));
                proof {
                    assert(self.ids() =~= old(self).ids());
                    assert forall|k: u128| #[trigger] self@.contains_key(k) == old(self)@.insert(id, meta_view).contains_key(k) by {}
                    assert forall|k: u128| self@.contains_key(k) implies #[trigger] self@[k] == old(self)@.insert(id, meta_view)[k] by {
                        let j = self.ids().index_of(k);
                        lemma_index_of_unique(self.ids(), j);
                        assert(self.ids()[j] == k) by {
                            assert(exists|x: int| 0 <= x < self.ids().len() && self.ids()[x] == k);
                        }
                        if k != id {
                            assert(j != i);
                            old(self).lemma_entry(j);
                        }
                    }
                    assert(self@ =~= old(self)@.insert(id, meta_view));
                }
                Some(old_meta)
            },
            None => {
                self.entries.push((id, meta));
                proof {
                    assert(self.ids() =~= old(self).ids().push(id));
                    assert forall|k: u128| #[trigger] self@.contains_key(k) == old(self)@.insert(id, meta_view).contains_key(k) by {
                        if old(self).ids().contains(k) {
                            let x = choose|x: int| 0 <= x < old(self).ids().len() && old(self).ids()[x] == k;
                            assert(self.ids()[x] == k);
                        }
                        if k == id {
                            assert(self.ids()[old(self).ids().len() as int] == id);
                        }
                    }
                    assert forall|k: u128| self@.contains_key(k) implies #[trigger] self@[k] == old(self)@.insert(id, meta_view)[k] by {
                        if k == id {
                            self.lemma_entry(old(self).ids().len() as int);
                        } else {
                            let x = choose|x: int| 0 <= x < self.ids().len() && self.ids()[x] == k;
                            assert(x < old(self).ids().len());
                            self.lemma_entry(x);
                            old(self).lemma_entry(x);
                        }
                    }
                    assert(self@ =~= old(self)@.insert(id, meta_view));
                }
                None
            },
        }
    }

    /// Removes the table under `id`, if any, and returns it; the order of
    /// the other ids is kept.
    pub fn remove(&mut self, id: &u128) -> (r: Option<TableMetadata>)
        requires
            old(self).wf(),
        ensures
            final(self).wf(),
            final(self)@ == old(self)@.remove(*id),
            r is Some == old(self)@.contains_key(*id),
            r matches Some(t) ==> t@ == old(self)@[*id],
            final(self).ids() == if old(self)@.contains_key(*id) {
                old(self).ids().remove(old(self).ids().index_of(*id))
            } else {
                old(self).ids()
            },
    {
        match self.find(*id) {
            Some(i) => {
                proof {
                    self.lemma_entry(i as int);
                }
                let (_, t) = self.entries.remove(i);
                proof {
                    assert(self.ids() =~= old(self).ids().remove(i as int));
                    assert forall|a: int, b: int| 0 <= a < b < self.ids().len() implies self.ids()[a] != self.ids()[b] by {
                        let a2 = if a < i { a } else { a + 1 };
                        let b2 = if b < i { b } else { b + 1 };
                        assert(self.ids()[a] == old(self).ids()[a2]);
                        assert(self.ids()[b] == old(self).ids()[b2]);
                    }
                    assert forall|k: u128| #[trigger] self@.contains_key(k) == old(self)@.remove(*id).contains_key(k) by {
                        if self.ids().contains(k) {
                            let x = choose|x: int| 0 <= x < self.ids().len() && self.ids()[x] == k;
                            let x2 = if x < i { x } else { x + 1 };
                            assert(old(self).ids()[x2] == k);
                            assert(x2 != i);
                        }
                        if old(self).ids().contains(k) && k != *id {
                            let x = choose|x: int| 0 <= x < old(self).ids().len() && old(self).ids()[x] == k;
                            assert(x != i);
                            let x2 = if x < i { x } else { x - 1 };
                            assert(self.ids()[x2] == k);
                        }
                    }
                    assert forall|k: u128| self@.contains_key(k) implies #[trigger] self@[k] == old(self)@.remove(*id)[k] by {
                        let x = choose|x: int| 0 <= x < self.ids().len() && self.ids()[x] == k;
                        self.lemma_entry(x);
                        let x2 = if x < i { x } else { x + 1 };
                        old(self).lemma_entry(x2);
                    }
                    assert(self@ =~= old(self)@.remove(*id));
                }
                Some(t)
            },
            None => {
                proof {
                    assert(!old(self)@.contains_key(*id));
                    assert(self@ =~= old(self)@.remove(*id));
                }
                None
            },
        }
    }
}

} // verus!

verus! {

// ---------------------------------------------------------------------------
// Table ids by name
// ---------------------------------------------------------------------------

/// The views of a sequence of strings.
pub open spec fn name_views(s: Seq<String>) -> Seq<Seq<char>> {
    s.map_values(|x: String| x@)
}

/// Table ids by table name.
#[derive(Debug)]
struct TableNameMap {
    names: Vec<String>,
    ids: Vec<u128>,
}

impl TableNameMap {
    closed spec fn keys(&self) -> Seq<Seq<char>> {
        name_views(self.names@)
    }

    closed spec fn wf(&self) -> bool {
        &&& self.names@.len() == self.ids@.len()
        &&& self.keys().no_duplicates()
    }
}

impl View for TableNameMap {
    type V = Map<Seq<char>, u128>;

    closed spec fn view(&self) -> Map<Seq<char>, u128> {
        Map::new(|n: Seq<char>| self.keys().contains(n), |n: Seq<char>| self.ids@[self.keys().index_of(n)])
    }
}

impl TableNameMap {
    proof fn lemma_entry(&self, i: int)
        requires
            self.wf(),
            0 <= i < self.names@.len(),
        ensures
            self.keys()[i] == self.names@[i]@,
            self@.contains_key(self.names@[i]@),
            self@[self.names@[i]@] == self.ids@[i],
    {
        lemma_index_of_unique(self.keys(), i);
    }

    fn new() -> (r: TableNameMap)
        ensures
            r.wf(),
            r@ == Map::<Seq<char>, u128>::empty(),
    {
        let r = TableNameMap { names: Vec::new(), ids: Vec::new() };
        assert(r.keys() =~= Seq::<Seq<char>>::empty());
        assert(r@ =~= Map::<Seq<char>, u128>::empty());
        r
    }

    fn find(&self, name: &String) -> (r: Option<usize>)
        requires
            self.wf(),
        ensures
            match r {
                Some(i) => i < self.names@.len() && self.names@[i as int]@ == name@,
                None => !self@.contains_key(name@),
            },
    {
        let mut i: usize = 0;
        while i < self.names.len()
            invariant
                self.wf(),
                i <= self.names@.len(),
                forall|j: int| 0 <= j < i ==> self.names@[j]@ != name@,
            decreases self.names@.len() - i,
        {
            if self.names[i] == *name {
                return Some(i);
            }
            i = i + 1;
        }
        proof {
            if self.keys().contains(name@) {
                let j = choose|j: int| 0 <= j < self.keys().len() && self.keys()[j] == name@;
                assert(self.names@[j]@ == name@);
            }
        }
        None
    }

    fn get(&self, name: &str) -> (r: Option<u128>)
        requires
            self.wf(),
        ensures
            r is Some == self@.contains_key(name@),
            r matches Some(id) ==> id == self@[name@],
    {
        let key = name.to_owned();
        match self.find(&key) {
            Some(i) => {
                proof {
                    self.lemma_entry(i as int);
                }
                Some(self.ids[i])
            },
            None => None,
        }
    }

    fn insert(&mut self, name: String, id: u128)
        requires
            old(self).wf(),
        ensures
            final(self).wf(),
            final(self)@ == old(self)@.insert(name@, id),
    {
        let ghost nv = name@;
        match self.find(&name) {
            Some(i) => {
                proof {
                    self.lemma_entry(i as int);
                }
                self.ids.remove(i);
                self.ids.insert(i, id);
                proof {
                    assert(self.keys() =~= old(self).keys());
                    assert forall|k: Seq<char>| #[trigger] self@.contains_key(k) == old(self)@.insert(nv, id).contains_key(k) by {}
                    assert forall|k: Seq<char>| self@.contains_key(k) implies #[trigger] self@[k] == old(self)@.insert(nv, id)[k] by {
                        let j = choose|j: int| 0 <= j < self.keys().len() && self.keys()[j] == k;
                        self.lemma_entry(j);
                        if k != nv {
                            old(self).lemma_entry(j);
                        }
                    }
                    assert(self@ =~= old(self)@.insert(nv, id));
                }
            },
            None => {
                self.names.push(name);
                self.ids.push(id);
                proof {
                    assert(self.keys() =~= old(self).keys().push(nv));
                    assert forall|k: Seq<char>| #[trigger] self@.contains_key(k) == old(self)@.insert(nv, id).contains_key(k) by {
                        if old(self).keys().contains(k) {
                            let x = choose|x: int| 0 <= x < old(self).keys().len() && old(self).keys()[x] == k;
                            assert(self.keys()[x] == k);
                        }
                        if k == nv {
                            assert(self.keys()[old(self).keys().len() as int] == nv);
                        }
                    }
                    assert forall|k: Seq<char>| self@.contains_key(k) implies #[trigger] self@[k] == old(self)@.insert(nv, id)[k] by {
                        let x = choose|x: int| 0 <= x < self.keys().len() && self.keys()[x] == k;
                        self.lemma_entry(x);
                        if k != nv {
                            assert(x < old(self).keys().len());
                            old(self).lemma_entry(x);
                        }
                    }
                    assert(self@ =~= old(self)@.insert(nv, id));
                }
            },
        }
    }

    fn remove(&mut self, name: &str)
        requires
            old(self).wf(),
        ensures
            final(self).wf(),
            final(self)@ == old(self)@.remove(name@),
    {
        let key = name.to_owned();
        match self.find(&key) {
            Some(i) => {
                proof {
                    self.lemma_entry(i as int);
                }
                self.names.remove(i);
                self.ids.remove(i);
                proof {
                    assert(self.keys() =~= old(self).keys().remove(i as int));
                    assert forall|a: int, b: int| 0 <= a < b < self.keys().len() implies self.keys()[a] != self.keys()[b] by {
                        let a2 = if a < i { a } else { a + 1 };
                        let b2 = if b < i { b } else { b + 1 };
                        assert(self.keys()[a] == old(self).keys()[a2]);
                        assert(self.keys()[b] == old(self).keys()[b2]);
                    }
                    assert forall|k: Seq<char>| #[trigger] self@.contains_key(k) == old(self)@.remove(name@).contains_key(k) by {
                        if self.keys().contains(k) {
                            let x = choose|x: int| 0 <= x < self.keys().len() && self.keys()[x] == k;
                            let x2 = if x < i { x } else { x + 1 };
                            assert(old(self).keys()[x2] == k);
                        }
                        if old(self).keys().contains(k) && k != name@ {
                            let x = choose|x: int| 0 <= x < old(self).keys().len() && old(self).keys()[x] == k;
                            let x2 = if x < i { x } else { x - 1 };
                            assert(self.keys()[x2] == k);
                        }
                    }
                    assert forall|k: Seq<char>| self@.contains_key(k) implies #[trigger] self@[k] == old(self)@.remove(name@)[k] by {
                        let x = choose|x: int| 0 <= x < self.keys().len() && self.keys()[x] == k;
                        self.lemma_entry(x);
                        let x2 = if x < i { x } else { x + 1 };
                        old(self).lemma_entry(x2);
                    }
                    assert(self@ =~= old(self)@.remove(name@));
                }
            },
            None => {
                assert(self@ =~= old(self)@.remove(name@));
            },
        }
    }
}

// ---------------------------------------------------------------------------
// Table states
// ---------------------------------------------------------------------------

/// Whether a table is marked for deletion.
#[derive(Clone, Copy, Debug, PartialEq, Eq, Structural)]
pub enum DeleteFlag {
    DoDelete,
    NoDelete,
}

/// Whether a COPY into a table is running.
#[derive(Clone, Copy, Debug, PartialEq, Eq, Structural)]
pub enum CopyFlag {
    CopyInProgress,
    NoCopy,
}

/// The state of a table.
#[derive(Clone, Copy, Debug, PartialEq, Eq, Structural)]
pub struct TableState {
    pub delete_flag: DeleteFlag,
    pub copy_flag: CopyFlag,
    pub n_queries_operating_on_table: u16,
}

/// The state of a table that was just added or loaded: not marked for
/// deletion, no COPY, no query on it.
pub open spec fn fresh_state() -> TableState {
    TableState { delete_flag: DeleteFlag::NoDelete, copy_flag: CopyFlag::NoCopy, n_queries_operating_on_table: 0 }
}

impl TableState {
    pub fn new() -> (r: TableState)
        ensures
            r == fresh_state(),
    {
        TableState { delete_flag: DeleteFlag::NoDelete, copy_flag: CopyFlag::NoCopy, n_queries_operating_on_table: 0 }
    }

    /// A fresh state for each table of `tables_metadata`, in its order.
    pub fn new_map(tables_metadata: &TableMap) -> (r: Vec<TableState>)
        requires
            tables_metadata.wf(),
        ensures
            r@.len() == tables_metadata.ids().len(),
            forall|i: int| 0 <= i < r@.len() ==> #[trigger] r@[i] == fresh_state(),
    {
        let n = tables_metadata.len();
        let mut r: Vec<TableState> = Vec::new();
        let mut i: usize = 0;
        while i < n
            invariant
                i <= n,
                r@.len() == i,
                forall|j: int| 0 <= j < i ==> #[trigger] r@[j] == fresh_state(),
            decreases n - i,
        {
            r.push(TableState::new());
            i = i + 1;
        }
        r
    }
}

} // verus!

verus! {

// ---------------------------------------------------------------------------
// The metadata of the database
// ---------------------------------------------------------------------------

/// What the database knows: its tables by id (and the order they were
/// added in), the state of each, table ids by name, where its files are,
/// and how many changes were made since the metadata was last saved.
pub ghost struct DbMetadataView {
    pub table_count: u16,
    pub tables: Map<u128, TableMetadataView>,
    pub order: Seq<u128>,
    pub states: Map<u128, TableState>,
    pub names: Map<Seq<char>, u128>,
    pub db_data_dir_path: Seq<char>,
    pub metadata_file_path: Seq<char>,
    pub changes: u16,
}

/// The metadata of the database.
#[derive(Debug)]
pub struct DbMetadata {
    table_count: u16,
    tables_metadata: TableMap,
    db_data_dir_path: String,
    metadata_file_path: String,
    tables_states: Vec<TableState>,
    table_name_to_id_map: TableNameMap,
    nbr_of_metadata_changes: u16,
}

impl View for DbMetadata {
    type V = DbMetadataView;

    closed spec fn view(&self) -> DbMetadataView {
        let order = self.tables_metadata.ids();
        DbMetadataView {
            table_count: self.table_count,
            tables: self.tables_metadata@,
            order,
            states: Map::new(|k: u128| order.contains(k), |k: u128| self.tables_states@[order.index_of(k)]),
            names: self.table_name_to_id_map@,
            db_data_dir_path: self.db_data_dir_path@,
            metadata_file_path: self.metadata_file_path@,
            changes: self.nbr_of_metadata_changes,
        }
    }
}

/// Every name leads to a table of that name.
pub open spec fn names_lead_to_tables(names: Map<Seq<char>, u128>, tables: Map<u128, TableMetadataView>) -> bool {
    forall|n: Seq<char>| #[trigger] names.contains_key(n) ==> tables.contains_key(names[n]) && tables[names[n]].name == n
}

/// The name index built from the tables in `order`: each table's name leads
/// to it, a later table of the same name taking the name over.
pub open spec fn names_index(order: Seq<u128>, tables: Map<u128, TableMetadataView>) -> Map<Seq<char>, u128>
    decreases order.len(),
{
    if order.len() == 0 {
        Map::empty()
    } else {
        names_index(order.drop_last(), tables).insert(tables[order.last()].name, order.last())
    }
}

/// The pattern of [`crate::db::constants::FILE_PATH_REGEX`].
pub open spec fn file_path_pattern() -> Seq<char> {
    crate::db::constants::FILE_PATH_REGEX@
}

/// A character of a path: an ASCII letter or digit, `_` or `/`.
pub open spec fn is_path_char(c: char) -> bool {
    is_word_char(c) || c == '/'
}

/// The part of a path after its first character: path characters, and
/// dots, each right after a `/` of this part.
pub open spec fn path_tail_ok(s: Seq<char>) -> bool {
    forall|k: int| 0 <= k < s.len() ==> is_path_char(#[trigger] s[k]) || (s[k] == '.' && k > 0 && s[k - 1] == '/')
}

/// What [`file_path_pattern`] matches: an optional `.`, then a letter or a
/// `/`, then a part of the form of [`path_tail_ok`].
pub open spec fn file_path_shape(p: Seq<char>) -> bool {
    ||| p.len() >= 1 && (is_ascii_letter(p[0]) || p[0] == '/') && path_tail_ok(p.subrange(1, p.len() as int))
    ||| p.len() >= 2 && p[0] == '.' && (is_ascii_letter(p[1]) || p[1] == '/') && path_tail_ok(
        p.subrange(2, p.len() as int),
    )
}

/// A table may be loaded: at most [`crate::db::constants::MAX_COL_COUNT`]
/// columns, and [`columns_ok`].
pub open spec fn table_ok(t: TableMetadataView) -> bool {
    t.columns.len() <= crate::db::constants::MAX_COL_COUNT && columns_ok(t.columns)
}

/// The error for a table that may not be loaded.
pub open spec fn table_error_is(t: TableMetadataView, e: DbError) -> bool {
    if t.columns.len() > crate::db::constants::MAX_COL_COUNT {
        e matches DbError::SizeExceeded { max, .. } && max == crate::db::constants::MAX_COL_COUNT
    } else {
        exists|i: int|
            0 <= i < t.columns.len() && columns_ok(t.columns.take(i)) && !columns_ok(seq![t.columns[i]])
                && column_error_is(#[trigger] t.columns[i], e)
    }
}

/// Metadata may be loaded with these values: both paths have the form of
/// [`file_path_shape`], the table count is the number of tables, and each
/// table is [`table_ok`].
pub open spec fn metadata_ok(
    table_count: u16,
    tables: Map<u128, TableMetadataView>,
    metadata_file_path: Seq<char>,
    data_dir_path: Seq<char>,
) -> bool {
    &&& file_path_shape(metadata_file_path)
    &&& file_path_shape(data_dir_path)
    &&& table_count == tables.len()
    &&& forall|id: u128| #[trigger] tables.contains_key(id) ==> table_ok(tables[id])
}

/// The error for metadata that may not be loaded: checked in the order of
/// [`metadata_ok`], the tables in `order`.
pub open spec fn metadata_error_is(
    table_count: u16,
    order: Seq<u128>,
    tables: Map<u128, TableMetadataView>,
    metadata_file_path: Seq<char>,
    data_dir_path: Seq<char>,
    e: DbError,
) -> bool {
    if !file_path_shape(metadata_file_path) || !file_path_shape(data_dir_path) {
        e is Other
    } else if table_count != tables.len() {
        e matches DbError::SizeMismatch { size_1, size_2, .. } && size_1 == table_count && size_2 == tables.len()
    } else {
        exists|i: int| #[trigger] first_bad_table_at(order, tables, i) && table_error_is(tables[order[i]], e)
    }
}

/// The table at `i` in `order` is the first that is not [`table_ok`].
pub open spec fn first_bad_table_at(order: Seq<u128>, tables: Map<u128, TableMetadataView>, i: int) -> bool {
    &&& 0 <= i < order.len()
    &&& forall|j: int| 0 <= j < i ==> table_ok(#[trigger] tables[order[j]])
    &&& !table_ok(tables[order[i]])
}

/// Checks [`metadata_ok`].
pub fn is_metadata_ok(
    table_count: u16,
    table_map: &TableMap,
    metadata_file_path: &str,
    data_dir_path: &str,
) -> (r: Result<(), DbError>)
    requires
        table_map.wf(),
    ensures
        r is Ok <==> metadata_ok(table_count, table_map@, metadata_file_path@, data_dir_path@),
        r matches Err(e) ==> metadata_error_is(
            table_count,
            table_map.ids(),
            table_map@,
            metadata_file_path@,
            data_dir_path@,
            e,
        ),
{
    match regex_match(crate::db::constants::FILE_PATH_REGEX, metadata_file_path) {
        None => {
            return Err(DbError::Other("failed to compile the file path regex".to_string()));
        },
        Some(false) => {
            return Err(DbError::Other("metadata file path does not satisfy the file path regex".to_string()));
        },
        Some(true) => {},
    }
    match regex_match(crate::db::constants::FILE_PATH_REGEX, data_dir_path) {
        None => {
            return Err(DbError::Other("failed to compile the file path regex".to_string()));
        },
        Some(false) => {
            return Err(DbError::Other("data dir path does not satisfy the file path regex".to_string()));
        },
        Some(true) => {},
    }
    let n = table_map.len();
    if table_count as usize != n {
        return Err(DbError::SizeMismatch {
            msg: "table_count differs from the number of tables".to_string(),
            size_1: table_count as usize,
            size_2: n,
        });
    }
    let mut i: usize = 0;
    while i < n
        invariant
            table_map.wf(),
            n == table_map.ids().len(),
            i <= n,
            file_path_shape(metadata_file_path@),
            file_path_shape(data_dir_path@),
            table_count == table_map@.len(),
            forall|j: int| 0 <= j < i ==> table_ok(#[trigger] table_map@[table_map.ids()[j]]),
        decreases n - i,
    {
        let (_, table_meta) = table_map.entry_at(i);
        if table_meta.columns.len() > crate::db::constants::MAX_COL_COUNT {
            let e = DbError::SizeExceeded {
                msg: "number of columns in table is greater than MAX_COL_COUNT".to_string(),
                max: crate::db::constants::MAX_COL_COUNT,
            };
            proof {
                assert(!table_ok(table_map@[table_map.ids()[i as int]]));
                table_map.lemma_ids();
                assert(table_map@.contains_key(table_map.ids()[i as int]));
                assert(first_bad_table_at(table_map.ids(), table_map@, i as int));
            }
            return Err(e);
        }
        match are_columns_ok(&table_meta.columns, table_meta.table_name.as_str()) {
            Err(e) => {
                proof {
                    let t = table_map@[table_map.ids()[i as int]];
                    assert(!table_ok(t));
                    table_map.lemma_ids();
                    assert(table_map@.contains_key(table_map.ids()[i as int]));
                    let c = choose|c: int|
                        0 <= c < table_meta.columns@.len() && columns_ok(col_views(table_meta.columns@.take(c))) && !columns_ok(
                            seq![table_meta.columns@[c]@],
                        ) && column_error_is(#[trigger] table_meta.columns@[c]@, e);
                    assert(col_views(table_meta.columns@.take(c)) =~= t.columns.take(c));
                    assert(t.columns[c] == table_meta.columns@[c]@);
                    assert(table_error_is(t, e));
                    assert(first_bad_table_at(table_map.ids(), table_map@, i as int));
                }
                return Err(e);
            },
            Ok(()) => {},
        }
        i = i + 1;
    }
    proof {
        table_map.lemma_ids();
        assert forall|id: u128| #[trigger] table_map@.contains_key(id) implies table_ok(table_map@[id]) by {
            let j = choose|j: int| 0 <= j < table_map.ids().len() && table_map.ids()[j] == id;
            assert(table_ok(table_map@[table_map.ids()[j]]));
        }
    }
    Ok(())
}

} // verus!

verus! {

/// Each id in `order` has a fresh state.
pub open spec fn fresh_states(order: Seq<u128>) -> Map<u128, TableState> {
    Map::new(|k: u128| order.contains(k), |k: u128| fresh_state())
}

/// The name index of tables in `order` leads each name to a table of `order`
/// with that name.
pub proof fn lemma_names_index(order: Seq<u128>, tables: Map<u128, TableMetadataView>)
    requires
        forall|i: int| 0 <= i < order.len() ==> tables.contains_key(#[trigger] order[i]),
    ensures
        names_lead_to_tables(names_index(order, tables), tables),
        forall|n: Seq<char>| #[trigger] names_index(order, tables).contains_key(n) ==> order.contains(
            names_index(order, tables)[n],
        ),
    decreases order.len(),
{
    if order.len() > 0 {
        let pre = order.drop_last();
        assert forall|i: int| 0 <= i < pre.len() implies tables.contains_key(#[trigger] pre[i]) by {
            assert(pre[i] == order[i]);
        }
        lemma_names_index(pre, tables);
        let m = names_index(order, tables);
        assert forall|n: Seq<char>| #[trigger] m.contains_key(n) implies order.contains(m[n]) by {
            if n != tables[order.last()].name {
                let x = choose|x: int| 0 <= x < pre.len() && pre[x] == names_index(pre, tables)[n];
                assert(order[x] == pre[x]);
            } else {
                assert(order[order.len() - 1] == order.last());
            }
        }
        assert(tables.contains_key(order[order.len() - 1]));
    }
}

/// The name index of the tables of `table_map`, in its order (see
/// [`names_index`]).
fn create_table_name_to_id_map(table_map: &TableMap) -> (r: TableNameMap)
    requires
        table_map.wf(),
    ensures
        r.wf(),
        r@ == names_index(table_map.ids(), table_map@),
{
    let mut name_to_id_map = TableNameMap::new();
    let n = table_map.len();
    let mut i: usize = 0;
    while i < n
        invariant
            table_map.wf(),
            n == table_map.ids().len(),
            i <= n,
            name_to_id_map.wf(),
            name_to_id_map@ == names_index(table_map.ids().take(i as int), table_map@),
        decreases n - i,
    {
        let (id, t) = table_map.entry_at(i);
        name_to_id_map.insert(t.table_name.clone(), id);
        proof {
            assert(table_map.ids().take(i + 1).drop_last() =~= table_map.ids().take(i as int));
            assert(table_map.ids().take(i + 1).last() == id);
        }
        i = i + 1;
    }
    assert(table_map.ids().take(n as int) =~= table_map.ids());
    name_to_id_map
}

impl DbMetadata {
    /// The tables, their states and the name index agree: the states are
    /// kept per table, the count is the number of tables, and every name
    /// leads to a table of that name.
    pub closed spec fn wf(&self) -> bool {
        &&& self.tables_metadata.wf()
        &&& self.tables_states@.len() == self.tables_metadata.ids().len()
        &&& self.table_count == self.tables_metadata.ids().len()
        &&& self.table_name_to_id_map.wf()
        &&& names_lead_to_tables(self.table_name_to_id_map@, self.tables_metadata@)
    }

    /// What [`DbMetadata::wf`] gives in terms of the view.
    pub proof fn lemma_wf(&self)
        requires
            self.wf(),
        ensures
            self@.order.no_duplicates(),
            forall|k: u128| #[trigger] self@.tables.contains_key(k) <==> self@.order.contains(k),
            forall|k: u128| #[trigger] self@.states.contains_key(k) <==> self@.tables.contains_key(k),
            self@.tables.dom().finite(),
            self@.table_count == self@.tables.len(),
            self@.table_count == self@.order.len(),
            names_lead_to_tables(self@.names, self@.tables),
    {
        self.tables_metadata.lemma_ids();
    }

    proof fn lemma_state_at(&self, i: int)
        requires
            self.wf(),
            0 <= i < self.tables_metadata.ids().len(),
        ensures
            self@.states.contains_key(self@.order[i]),
            self@.states[self@.order[i]] == self.tables_states@[i],
            self@.tables.contains_key(self@.order[i]),
            self@.tables[self@.order[i]] == self.tables_metadata.entries@[i].1@,
            self@.order[i] == self.tables_metadata.entries@[i].0,
    {
        lemma_index_of_unique(self.tables_metadata.ids(), i);
        self.tables_metadata.lemma_entry(i);
    }

    /// Metadata for `table_map`, after checking it with [`is_metadata_ok`]:
    /// every table fresh, the name index built in the map's order, no
    /// changes yet.
    pub fn new(
        table_count: u16,
        table_map: TableMap,
        metadata_file_path: &str,
        data_dir_path: &str,
    ) -> (r: Result<DbMetadata, DbError>)
        requires
            table_map.wf(),
        ensures
            r is Ok <==> metadata_ok(table_count, table_map@, metadata_file_path@, data_dir_path@),
            r matches Err(e) ==> metadata_error_is(
                table_count,
                table_map.ids(),
                table_map@,
                metadata_file_path@,
                data_dir_path@,
                e,
            ),
            r matches Ok(m) ==> m.wf() && m@ == (DbMetadataView {
                table_count,
                tables: table_map@,
                order: table_map.ids(),
                states: fresh_states(table_map.ids()),
                names: names_index(table_map.ids(), table_map@),
                db_data_dir_path: data_dir_path@,
                metadata_file_path: metadata_file_path@,
                changes: 0,
            }),
    {
        is_metadata_ok(table_count, &table_map, metadata_file_path, data_dir_path)?;
        let tables_states = TableState::new_map(&table_map);
        let table_name_to_id_map = create_table_name_to_id_map(&table_map);
        proof {
            table_map.lemma_ids();
            assert forall|i: int| 0 <= i < table_map.ids().len() implies table_map@.contains_key(#[trigger] table_map.ids()[i]) by {
                table_map.lemma_entry(i);
            }
            lemma_names_index(table_map.ids(), table_map@);
        }
        let db_meta = DbMetadata {
            table_count,
            tables_metadata: table_map,
            db_data_dir_path: data_dir_path.to_owned(),
            metadata_file_path: metadata_file_path.to_owned(),
            tables_states,
            table_name_to_id_map,
            nbr_of_metadata_changes: 0,
        };
        proof {
            assert forall|k: u128| #[trigger] db_meta@.states.contains_key(k) == fresh_states(db_meta@.order).contains_key(k) by {}
            assert forall|k: u128| db_meta@.states.contains_key(k) implies #[trigger] db_meta@.states[k] == fresh_states(db_meta@.order)[k] by {
                let j = db_meta@.order.index_of(k);
                assert(0 <= j < db_meta@.order.len()) by {
                    assert(db_meta@.order.contains(k));
                }
                assert(db_meta.tables_states@[j] == fresh_state());
            }
            assert(db_meta@.states =~= fresh_states(db_meta@.order));
        }
        Ok(db_meta)
    }

    /// Metadata without tables.
    pub fn new_empty(metadata_file_path: &str, data_dir_path: &str) -> (r: Result<DbMetadata, DbError>)
        ensures
            r is Ok <==> metadata_ok(0, Map::empty(), metadata_file_path@, data_dir_path@),
            r matches Err(e) ==> metadata_error_is(0, Seq::empty(), Map::empty(), metadata_file_path@, data_dir_path@, e),
            r matches Ok(m) ==> m.wf() && m@ == (DbMetadataView {
                table_count: 0,
                tables: Map::empty(),
                order: Seq::empty(),
                states: Map::empty(),
                names: Map::empty(),
                db_data_dir_path: data_dir_path@,
                metadata_file_path: metadata_file_path@,
                changes: 0,
            }),
    {
        let r = DbMetadata::new(0, TableMap::new(), metadata_file_path, data_dir_path);
        proof {
            assert(fresh_states(Seq::<u128>::empty()) =~= Map::<u128, TableState>::empty());
            assert(names_index(Seq::<u128>::empty(), Map::<u128, TableMetadataView>::empty()) =~= Map::<Seq<char>, u128>::empty());
        }
        r
    }

    pub fn table_count(&self) -> (r: u16)
        ensures
            r == self@.table_count,
    {
        self.table_count
    }

    pub fn nbr_of_metadata_changes(&self) -> (r: u16)
        ensures
            r == self@.changes,
    {
        self.nbr_of_metadata_changes
    }

    /// The tables, as they are saved.
    pub fn tables(&self) -> (r: &TableMap)
        requires
            self.wf(),
        ensures
            r.wf(),
            r@ == self@.tables,
            r.ids() == self@.order,
    {
        &self.tables_metadata
    }

    pub fn db_data_dir_path(&self) -> (r: &str)
        ensures
            r@ == self@.db_data_dir_path,
    {
        self.db_data_dir_path.as_str()
    }

    pub fn metadata_file_path(&self) -> (r: &str)
        ensures
            r@ == self@.metadata_file_path,
    {
        self.metadata_file_path.as_str()
    }
}

} // verus!

verus! {

/// The tables listed to clients: those not marked for deletion, in the
/// order they were added, each as its id and name.
pub open spec fn visible_tables(v: DbMetadataView) -> Seq<(u128, Seq<char>)> {
    v.order.filter(|id: u128| v.states[id].delete_flag == DeleteFlag::NoDelete).map_values(
        |id: u128| (id, v.tables[id].name),
    )
}

/// A table exists and is not marked for deletion.
pub open spec fn table_alive(v: DbMetadataView, id: u128) -> bool {
    v.tables.contains_key(id) && v.states[id].delete_flag == DeleteFlag::NoDelete
}

/// The metadata with the state of table `id` replaced.
pub open spec fn with_state(v: DbMetadataView, id: u128, s: TableState) -> DbMetadataView {
    DbMetadataView { states: v.states.insert(id, s), ..v }
}

/// The columns of a new table `tname` under `id` in the data directory
/// `dir`, from the columns of its schema: each with the path of its first
/// file (see [`file_path_text`]).
pub open spec fn schema_columns(
    cols: Seq<(Seq<char>, LogicalColType)>,
    dir: Seq<char>,
    id: u128,
    tname: Seq<char>,
) -> Seq<ColMetadataView> {
    cols.map_values(
        |c: (Seq<char>, LogicalColType)|
            ColMetadataView { name: c.0, col_type: c.1, files: seq![file_path_text(dir, id, tname, c.0, 0)] },
    )
}

/// The names of the columns of a schema.
pub open spec fn schema_col_names(cols: Seq<(Seq<char>, LogicalColType)>) -> Seq<Seq<char>> {
    cols.map_values(|c: (Seq<char>, LogicalColType)| c.0)
}

/// The column at `i` of a schema may not be added: its name has non-ASCII
/// characters or was used by an earlier column.
pub open spec fn schema_col_bad_at(cols: Seq<(Seq<char>, LogicalColType)>, i: int) -> bool {
    !is_ascii_chars(cols[i].0) || schema_col_names(cols.take(i)).contains(cols[i].0)
}

/// The columns of a schema a table may be created with: ASCII names, each
/// used once (a table may have no column).
pub open spec fn schema_cols_ok(cols: Seq<(Seq<char>, LogicalColType)>) -> bool {
    forall|i: int| 0 <= i < cols.len() ==> !#[trigger] schema_col_bad_at(cols, i)
}

/// The error for the columns of a schema that are not
/// [`schema_cols_ok`]: `InvalidColumnName` with the name of the first bad
/// column.
pub open spec fn schema_error_is(cols: Seq<(Seq<char>, LogicalColType)>, e: DbError) -> bool {
    exists|i: int|
        0 <= i < cols.len() && #[trigger] schema_col_bad_at(cols, i) && (forall|j: int|
            0 <= j < i ==> !#[trigger] schema_col_bad_at(cols, j)) && (e matches DbError::InvalidColumnName {
            name,
            ..
        } && name@ == cols[i].0)
}

/// A table created from a schema under `id`, in the data directory `dir`.
pub open spec fn new_table_view(
    schema: (Seq<char>, Seq<(Seq<char>, LogicalColType)>),
    id: u128,
    dir: Seq<char>,
) -> TableMetadataView {
    TableMetadataView {
        name: schema.0,
        id,
        columns: schema_columns(schema.1, dir, id, schema.0),
        dir_path: dir_path_text(dir, id, schema.0),
    }
}

/// The metadata after a table is added under `id`.
pub open spec fn after_put(
    v: DbMetadataView,
    schema: (Seq<char>, Seq<(Seq<char>, LogicalColType)>),
    id: u128,
) -> DbMetadataView {
    DbMetadataView {
        table_count: (v.table_count + 1) as u16,
        tables: v.tables.insert(id, new_table_view(schema, id, v.db_data_dir_path)),
        order: v.order.push(id),
        states: v.states.insert(id, fresh_state()),
        names: v.names.insert(schema.0, id),
        changes: (v.changes + 1) as u16,
        ..v
    }
}

/// The metadata after table `id` is deleted.
pub open spec fn after_delete(v: DbMetadataView, id: u128) -> DbMetadataView {
    DbMetadataView {
        table_count: (v.table_count - 1) as u16,
        tables: v.tables.remove(id),
        order: v.order.remove(v.order.index_of(id)),
        states: v.states.remove(id),
        names: v.names.remove(v.tables[id].name),
        ..v
    }
}

/// The columns of a schema, each with the path of its first file (see
/// [`schema_columns`]); see [`schema_cols_ok`] and [`schema_error_is`] for
/// when it fails.
pub fn table_schema_into_columns_vec(
    schema: &TableSchema,
    table_id: &u128,
    db_data_dir_path: &str,
) -> (r: Result<Vec<ColMetadata>, DbError>)
    ensures
        r is Ok <==> schema_cols_ok(schema@.1),
        r matches Ok(v) ==> col_views(v@) == schema_columns(schema@.1, db_data_dir_path@, *table_id, schema@.0),
        r matches Err(e) ==> schema_error_is(schema@.1, e),
{
    let cols = schema.columns();
    let ghost sc = schema@.1;
    let mut columns: Vec<ColMetadata> = Vec::new();
    let mut i: usize = 0;
    while i < cols.len()
        invariant
            sc == schema@.1,
            cols@.map_values(|c: Column| c@) == sc,
            i <= cols@.len(),
            columns@.len() == i,
            col_views(columns@) == schema_columns(sc.take(i as int), db_data_dir_path@, *table_id, schema@.0),
            forall|j: int| 0 <= j < i ==> !#[trigger] schema_col_bad_at(sc, j),
        decreases cols@.len() - i,
    {
        let col = &cols[i];
        assert(sc[i as int] == col@);
        let col_name = col.c_name().to_owned();
        if !col_name.as_str().is_ascii() {
            proof {
                assert(!is_ascii_chars(sc[i as int].0));
                assert(schema_col_bad_at(sc, i as int));
            }
            return Err(DbError::InvalidColumnName {
                msg: "table has a column with non-ASCII characters in its name".to_string(),
                name: col_name,
            });
        }
        let mut k: usize = 0;
        let mut dup = false;
        while k < columns.len()
            invariant
                k <= columns@.len(),
                columns@.len() == i,
                i < sc.len(),
                col_views(columns@) == schema_columns(sc.take(i as int), db_data_dir_path@, *table_id, schema@.0),
                sc[i as int].0 == col_name@,
                dup == exists|x: int| 0 <= x < k && #[trigger] columns@[x]@.name == col_name@,
            decreases columns@.len() - k,
        {
            let ghost was = dup;
            if columns[k].c_name == col_name {
                dup = true;
            }
            proof {
                assert(columns@[k as int]@.name == columns@[k as int].c_name@);
                if !was {
                    assert forall|x: int| 0 <= x < k + 1 && #[trigger] columns@[x]@.name == col_name@ implies dup by {
                        if x < k {
                            assert(!(0 <= x < k && columns@[x]@.name == col_name@));
                        }
                    }
                }
            }
            k = k + 1;
        }
        proof {
            assert forall|x: int| 0 <= x < i implies #[trigger] schema_col_names(sc.take(i as int))[x] == columns@[x]@.name by {
                assert(col_views(columns@)[x] == columns@[x]@);
                assert(schema_columns(sc.take(i as int), db_data_dir_path@, *table_id, schema@.0)[x].name == sc[x].0);
            }
            if dup {
                let x = choose|x: int| 0 <= x < k && #[trigger] columns@[x]@.name == col_name@;
                assert(schema_col_names(sc.take(i as int))[x] == col_name@);
            } else {
                if schema_col_names(sc.take(i as int)).contains(col_name@) {
                    let x = choose|x: int| 0 <= x < schema_col_names(sc.take(i as int)).len() && schema_col_names(sc.take(i as int))[x] == col_name@;
                    assert(columns@[x]@.name == col_name@);
                }
            }
        }
        if dup {
            proof {
                assert(schema_col_bad_at(sc, i as int));
            }
            return Err(DbError::InvalidColumnName {
                msg: "table doesn't have unique column names".to_string(),
                name: col_name,
            });
        }
        let ghost prev = columns@;
        let mut c = ColMetadata::new(col_name.as_str(), col.c_type());
        let path = create_file_path(db_data_dir_path, table_id, schema.name(), col_name.as_str(), 0);
        c.push_col_file(path);
        columns.push(c);
        proof {
            assert(columns@ == prev.push(c));
            assert(sc.take(i + 1) =~= sc.take(i as int).push(sc[i as int]));
            assert(col_views(columns@) =~= col_views(prev).push(c@));
            assert(schema_columns(sc.take(i + 1), db_data_dir_path@, *table_id, schema@.0) =~= schema_columns(sc.take(i as int), db_data_dir_path@, *table_id, schema@.0).push(c@));
        }
        i = i + 1;
    }
    assert(sc.take(i as int) =~= sc);
    Ok(columns)
}

} // verus!

verus! {

impl DbMetadata {
    /// Changing the state stored at `i` changes the state of the table at
    /// `i` of the order.
    proof fn lemma_set_state(a: DbMetadata, b: DbMetadata, i: int)
        requires
            a.wf(),
            0 <= i < a.tables_states@.len(),
            b.tables_metadata == a.tables_metadata,
            b.tables_states@ == a.tables_states@.update(i, b.tables_states@[i]),
            b.table_count == a.table_count,
            b.table_name_to_id_map == a.table_name_to_id_map,
            b.db_data_dir_path == a.db_data_dir_path,
            b.metadata_file_path == a.metadata_file_path,
            b.nbr_of_metadata_changes == a.nbr_of_metadata_changes,
        ensures
            b.wf(),
            b@ == with_state(a@, a@.order[i], b.tables_states@[i]),
    {
        a.lemma_state_at(i);
        let s = b.tables_states@[i];
        assert forall|k: u128| #[trigger] b@.states.contains_key(k) == a@.states.insert(a@.order[i], s).contains_key(k) by {}
        assert forall|k: u128| b@.states.contains_key(k) implies #[trigger] b@.states[k] == a@.states.insert(a@.order[i], s)[k] by {
            let j = a@.order.index_of(k);
            assert(a@.order.contains(k));
            lemma_index_of_unique(a@.order, j);
        }
        assert(b@.states =~= a@.states.insert(a@.order[i], s));
    }

    /// Where the table `id` stands in the order, if it exists.
    fn find_table(&self, id: &u128) -> (r: Option<usize>)
        requires
            self.wf(),
        ensures
            r is Some == self@.tables.contains_key(*id),
            r matches Some(i) ==> i < self@.order.len() && self@.order[i as int] == *id && self@.order.index_of(*id) == i
                && self@.states[*id] == self.tables_states@[i as int],
    {
        proof {
            self.tables_metadata.lemma_ids();
        }
        match self.tables_metadata.find(*id) {
            Some(i) => {
                proof {
                    self.lemma_state_at(i as int);
                }
                Some(i)
            },
            None => None,
        }
    }

    /// The tables not marked for deletion (see [`visible_tables`]).
    pub fn get_tables(&self) -> (r: Vec<ShallowTable>)
        requires
            self.wf(),
        ensures
            r@.map_values(|t: ShallowTable| t@) == visible_tables(self@),
    {
        let ghost v = self@;
        let ghost pred = |id: u128| v.states[id].delete_flag == DeleteFlag::NoDelete;
        let ghost f = |id: u128| (id, v.tables[id].name);
        let mut tables: Vec<ShallowTable> = Vec::new();
        let n = self.tables_metadata.len();
        let mut i: usize = 0;
        while i < n
            invariant
                self.wf(),
                v == self@,
                pred == (|id: u128| v.states[id].delete_flag == DeleteFlag::NoDelete),
                f == (|id: u128| (id, v.tables[id].name)),
                n == v.order.len(),
                i <= n,
                tables@.map_values(|t: ShallowTable| t@) == v.order.take(i as int).filter(pred).map_values(f),
            decreases n - i,
        {
            proof {
                self.lemma_state_at(i as int);
                assert(v.order.take(i + 1) =~= v.order.take(i as int).push(v.order[i as int]));
                v.order.take(i as int).lemma_filter_push(v.order[i as int], pred);
            }
            let (t_id, t_meta) = self.tables_metadata.entry_at(i);
            match self.tables_states[i].delete_flag {
                DeleteFlag::NoDelete => {
                    let ghost prev = tables@;
                    let st = ShallowTable::new(&t_id, t_meta.table_name.as_str());
                    tables.push(st);
                    proof {
                        assert(tables@ == prev.push(st));
                        assert(tables@.map_values(|t: ShallowTable| t@) =~= prev.map_values(|t: ShallowTable| t@).push(st@));
                        assert(v.order.take(i as int).filter(pred).push(t_id).map_values(f) =~= v.order.take(i as int).filter(pred).map_values(f).push(f(t_id)));
                    }
                },
                DeleteFlag::DoDelete => {},
            }
            i = i + 1;
        }
        assert(v.order.take(n as int) =~= v.order);
        tables
    }

    /// The schema of a table that exists and is not marked for deletion;
    /// `NotFound` otherwise.
    pub fn get_table_details(&self, table_id: &u128) -> (r: Result<TableSchema, DbError>)
        requires
            self.wf(),
        ensures
            r is Ok <==> table_alive(self@, *table_id),
            r matches Ok(s) ==> s@ == schema_of(self@.tables[*table_id]),
            r is Err ==> r->Err_0 is NotFound,
    {
        match self.find_table(table_id) {
            Some(i) => {
                proof {
                    self.lemma_state_at(i as int);
                }
                match self.tables_states[i].delete_flag {
                    DeleteFlag::NoDelete => Ok(self.tables_metadata.entries[i].1.into_table_schema()),
                    DeleteFlag::DoDelete => Err(DbError::NotFound("table not found in db".to_string())),
                }
            },
            None => Err(DbError::NotFound("table not found in db".to_string())),
        }
    }

    /// Marks a table for deletion; `NotFound` if there is no such table.
    pub fn mark_table_for_deletion(&mut self, table_id: &u128) -> (r: Result<(), DbError>)
        requires
            old(self).wf(),
        ensures
            final(self).wf(),
            r is Ok <==> old(self)@.tables.contains_key(*table_id),
            r is Ok ==> final(self)@ == with_state(
                old(self)@,
                *table_id,
                TableState { delete_flag: DeleteFlag::DoDelete, ..old(self)@.states[*table_id] },
            ),
            r is Err ==> r->Err_0 is NotFound && final(self)@ == old(self)@,
    {
        match self.find_table(table_id) {
            Some(i) => {
                let st = TableState { delete_flag: DeleteFlag::DoDelete, ..self.tables_states[i] };
                self.tables_states.set(i, st);
                proof {
                    DbMetadata::lemma_set_state(*old(self), *self, i as int);
                }
                Ok(())
            },
            None => Err(DbError::NotFound("table couldn't be deleted, since it's not in database".to_string())),
        }
    }

    /// Deletes a table that is marked for deletion and has no query working
    /// on it, and returns what was known of it. `NotFound` if there is no
    /// such table; `Other` if a query works on it or it is not marked.
    pub fn delete_table(&mut self, table_id: &u128) -> (r: Result<TableMetadata, DbError>)
        requires
            old(self).wf(),
        ensures
            final(self).wf(),
            r is Ok <==> old(self)@.tables.contains_key(*table_id)
                && old(self)@.states[*table_id].n_queries_operating_on_table == 0
                && old(self)@.states[*table_id].delete_flag == DeleteFlag::DoDelete,
            !old(self)@.tables.contains_key(*table_id) ==> r is Err && r->Err_0 is NotFound,
            old(self)@.tables.contains_key(*table_id) && r is Err ==> r->Err_0 is Other,
            r is Err ==> final(self)@ == old(self)@,
            r matches Ok(t) ==> t@ == old(self)@.tables[*table_id] && final(self)@ == after_delete(old(self)@, *table_id),
    {
        let i = match self.find_table(table_id) {
            Some(i) => i,
            None => {
                return Err(DbError::NotFound("table couldn't be deleted, since it's not in database".to_string()));
            },
        };
        if self.tables_states[i].n_queries_operating_on_table > 0 {
            return Err(DbError::Other("table couldn't be deleted, since there are still queries operating on it".to_string()));
        }
        if self.tables_states[i].delete_flag != DeleteFlag::DoDelete {
            return Err(DbError::Other("table couldn't be deleted, since it's not marked for deletion".to_string()));
        }
        proof {
            self.tables_metadata.lemma_ids();
        }
        let t_meta = match self.tables_metadata.remove(table_id) {
            Some(t) => t,
            None => {
                return Err(DbError::InternalDbError("table disappeared while being deleted".to_string()));
            },
        };
        self.tables_states.remove(i);
        self.table_name_to_id_map.remove(t_meta.table_name.as_str());
        self.table_count = self.table_count - 1;
        proof {
            let o = old(self)@;
            let id = *table_id;
            self.tables_metadata.lemma_ids();
            assert(self@.order =~= o.order.remove(i as int));
            assert forall|k: u128| #[trigger] self@.states.contains_key(k) == o.states.remove(id).contains_key(k) by {
                old(self).tables_metadata.lemma_ids();
            }
            assert forall|k: u128| self@.states.contains_key(k) implies #[trigger] self@.states[k] == o.states.remove(id)[k] by {
                let x = self@.order.index_of(k);
                assert(self@.order.contains(k));
                lemma_index_of_unique(self@.order, x);
                let x2 = if x < i { x } else { x + 1 };
                assert(o.order[x2] == k);
                lemma_index_of_unique(o.order, x2);
                old(self).lemma_state_at(x2);
            }
            assert(self@.states =~= o.states.remove(id));
            assert forall|n: Seq<char>| #[trigger] self@.names.contains_key(n) implies self@.tables.contains_key(self@.names[n])
                && self@.tables[self@.names[n]].name == n by {
                assert(o.names.contains_key(n) && o.names[n] == self@.names[n]);
                assert(n != o.tables[id].name);
            }
            assert(self@ == after_delete(o, id));
        }
        Ok(t_meta)
    }
}

} // verus!

verus! {

/// A query on table `table_name` may run: the name leads to a table that is
/// not marked for deletion.
pub open spec fn query_authorized(v: DbMetadataView, table_name: Seq<char>) -> bool {
    v.names.contains_key(table_name) && v.states[v.names[table_name]].delete_flag == DeleteFlag::NoDelete
}

/// The state of table `id` with one more query working on it.
pub open spec fn with_one_more_query(v: DbMetadataView, id: u128) -> DbMetadataView {
    with_state(
        v,
        id,
        TableState { n_queries_operating_on_table: (v.states[id].n_queries_operating_on_table + 1) as u16, ..v.states[id] },
    )
}

/// The state of table `id` with one query less working on it.
pub open spec fn with_one_less_query(v: DbMetadataView, id: u128) -> DbMetadataView {
    with_state(
        v,
        id,
        TableState { n_queries_operating_on_table: (v.states[id].n_queries_operating_on_table - 1) as u16, ..v.states[id] },
    )
}

/// The state of table `id` with its copy flag set to `f`.
pub open spec fn with_copy_flag(v: DbMetadataView, id: u128, f: CopyFlag) -> DbMetadataView {
    with_state(v, id, TableState { copy_flag: f, ..v.states[id] })
}

impl DbMetadata {
    /// Adds a table made from `table_schema` under `table_id` (see
    /// [`after_put`]); it gets no directory or files here. Fails with
    /// `InvalidName` (naming the table) if a table of that name exists (two
    /// tables cannot share a name), then with `Other` if the id is taken, and as
    /// [`table_schema_into_columns_vec`] does if the schema's columns may not
    /// be used.
    pub fn put_table_with_id(&mut self, table_schema: &TableSchema, table_id: u128) -> (r: Result<u128, DbError>)
        requires
            old(self).wf(),
            old(self)@.table_count < u16::MAX,
            old(self)@.changes < u16::MAX,
        ensures
            final(self).wf(),
            r is Ok <==> !old(self)@.tables.contains_key(table_id) && !old(self)@.names.contains_key(table_schema@.0)
                && schema_cols_ok(table_schema@.1),
            old(self)@.names.contains_key(table_schema@.0) ==> (r matches Err(DbError::InvalidName(n)) && n@
                == table_schema@.0),
            !old(self)@.names.contains_key(table_schema@.0) && old(self)@.tables.contains_key(table_id) ==> r is Err
                && r->Err_0 is Other,
            !old(self)@.tables.contains_key(table_id) && !old(self)@.names.contains_key(table_schema@.0) ==> (r matches Err(
                e,
            ) ==> schema_error_is(table_schema@.1, e)),
            r is Err ==> final(self)@ == old(self)@,
            r is Ok ==> r == Ok::<u128, DbError>(table_id) && final(self)@ == after_put(old(self)@, table_schema@, table_id),
    {
        proof {
            self.tables_metadata.lemma_ids();
        }
        if self.table_name_to_id_map.get(table_schema.name()).is_some() {
            return Err(DbError::InvalidName(table_schema.name().to_owned()));
        }
        if self.tables_metadata.contains_key(&table_id) {
            return Err(DbError::Other("the table id is already taken".to_string()));
        }
        let columns = table_schema_into_columns_vec(table_schema, &table_id, self.db_data_dir_path.as_str())?;
        let dir_path = create_dir_path(self.db_data_dir_path.as_str(), &table_id, table_schema.name());
        let meta = TableMetadata::new(table_schema.name(), &table_id, columns, dir_path.as_str());
        self.tables_metadata.insert(table_id, meta);
        self.tables_states.push(TableState::new());
        self.table_name_to_id_map.insert(table_schema.name().to_owned(), table_id);
        self.table_count = self.table_count + 1;
        self.nbr_of_metadata_changes = self.nbr_of_metadata_changes + 1;
        proof {
            let o = old(self)@;
            self.tables_metadata.lemma_ids();
            old(self).tables_metadata.lemma_ids();
            let n = o.order.len();
            assert forall|k: u128| #[trigger] self@.states.contains_key(k) == o.states.insert(table_id, fresh_state()).contains_key(k) by {}
            assert forall|k: u128| self@.states.contains_key(k) implies #[trigger] self@.states[k] == o.states.insert(table_id, fresh_state())[k] by {
                let x = self@.order.index_of(k);
                assert(self@.order.contains(k));
                lemma_index_of_unique(self@.order, x);
                if x < n {
                    assert(o.order[x] == k);
                    old(self).lemma_state_at(x);
                } else {
                    assert(x == n);
                }
            }
            assert(self@.states =~= o.states.insert(table_id, fresh_state()));
            assert forall|nm: Seq<char>| #[trigger] self@.names.contains_key(nm) implies self@.tables.contains_key(self@.names[nm])
                && self@.tables[self@.names[nm]].name == nm by {
                if nm != table_schema@.0 {
                    assert(o.names.contains_key(nm) && o.names[nm] == self@.names[nm]);
                    assert(self@.names[nm] != table_id);
                }
            }
            assert(self@ == after_put(o, table_schema@, table_id));
        }
        Ok(table_id)
    }

    /// Adds a table made from `table_schema` under a new random id, and
    /// returns the id. Whatever the id, the outcome is that of
    /// [`DbMetadata::put_table_with_id`] with it.
    pub fn put_table(&mut self, table_schema: &TableSchema) -> (r: Result<u128, DbError>)
        requires
            old(self).wf(),
            old(self)@.table_count < u16::MAX,
            old(self)@.changes < u16::MAX,
        ensures
            final(self).wf(),
            r matches Ok(id) ==> !old(self)@.tables.contains_key(id) && !old(self)@.names.contains_key(table_schema@.0)
                && schema_cols_ok(table_schema@.1) && final(self)@ == after_put(old(self)@, table_schema@, id),
            r is Err ==> final(self)@ == old(self)@,
            old(self)@.names.contains_key(table_schema@.0) ==> (r matches Err(DbError::InvalidName(n)) && n@
                == table_schema@.0),
            !old(self)@.names.contains_key(table_schema@.0) && schema_cols_ok(table_schema@.1) && r is Err ==> r->Err_0 is Other,
            !schema_cols_ok(table_schema@.1) ==> r is Err,
    {
        let table_id = new_v4_id();
        self.put_table_with_id(table_schema, table_id)
    }

    /// Whether a query on the table `query` names may run (see
    /// [`query_authorized`]); `NotFound` otherwise.
    pub fn authorize_query<Q: QueryTableName>(&self, query: &Q) -> (r: Result<(), DbError>)
        requires
            self.wf(),
        ensures
            r is Ok <==> query_authorized(self@, query.spec_table_name()),
            r is Err ==> r->Err_0 is NotFound,
    {
        let table_name = query.table_name();
        match self.table_name_to_id_map.get(table_name) {
            Some(table_id) => {
                match self.find_table(&table_id) {
                    Some(i) => {
                        if self.tables_states[i].delete_flag == DeleteFlag::NoDelete {
                            return Ok(());
                        }
                        Err(DbError::NotFound("query ABORTED, table is already deleted".to_string()))
                    },
                    None => Err(DbError::InternalDbError(
                        "query ABORTED, table name known but table missing, DB CORRUPTED".to_string(),
                    )),
                }
            },
            None => Err(DbError::NotFound("query ABORTED, such table does not exist in db".to_string())),
        }
    }

    /// One more query works on the table `q` names, if the query is
    /// authorized (see [`DbMetadata::authorize_query`]).
    pub fn increase_nbr_of_queries_operating_on_table<Q: QueryTableName>(&mut self, q: &Q) -> (r: Result<(), DbError>)
        requires
            old(self).wf(),
            old(self)@.names.contains_key(q.spec_table_name()) ==> old(self)@.states[old(self)@.names[q.spec_table_name()]].n_queries_operating_on_table < u16::MAX,
        ensures
            final(self).wf(),
            r is Ok <==> query_authorized(old(self)@, q.spec_table_name()),
            r is Ok ==> final(self)@ == with_one_more_query(old(self)@, old(self)@.names[q.spec_table_name()]),
            r is Err ==> r->Err_0 is NotFound && final(self)@ == old(self)@,
    {
        self.authorize_query(q)?;
        let table_name = q.table_name();
        let table_id = match self.table_name_to_id_map.get(table_name) {
            Some(id) => id,
            None => {
                return Err(DbError::NotFound("no table of that name".to_string()));
            },
        };
        match self.find_table(&table_id) {
            Some(i) => {
                let s = self.tables_states[i];
                let st = TableState { n_queries_operating_on_table: s.n_queries_operating_on_table + 1, ..s };
                self.tables_states.set(i, st);
                proof {
                    DbMetadata::lemma_set_state(*old(self), *self, i as int);
                }
                Ok(())
            },
            None => Err(DbError::NotFound("no table of that id".to_string())),
        }
    }

    /// One query less works on table `table_id`: `Other` if there is no
    /// such table or no query works on it.
    fn do_queries_decrease(&mut self, table_id: &u128) -> (r: Result<(), DbError>)
        requires
            old(self).wf(),
        ensures
            final(self).wf(),
            r is Ok <==> old(self)@.tables.contains_key(*table_id) && old(self)@.states[*table_id].n_queries_operating_on_table > 0,
            r is Ok ==> final(self)@ == with_one_less_query(old(self)@, *table_id),
            r is Err ==> r->Err_0 is Other && final(self)@ == old(self)@,
    {
        match self.find_table(table_id) {
            Some(i) => {
                let s = self.tables_states[i];
                if s.n_queries_operating_on_table > 0 {
                    let st = TableState { n_queries_operating_on_table: s.n_queries_operating_on_table - 1, ..s };
                    self.tables_states.set(i, st);
                    proof {
                        DbMetadata::lemma_set_state(*old(self), *self, i as int);
                    }
                    Ok(())
                } else {
                    Err(DbError::Other("no queries operating on table to decrease".to_string()))
                }
            },
            None => Err(DbError::Other("there is no table in db with that id".to_string())),
        }
    }

    /// One query less works on a table, given by id or, where no id is
    /// given, by name. With an id, see the errors of the id case below; a
    /// name that leads nowhere is `NotFound`; neither given is `Other`.
    pub fn decrease_nbr_of_queries_operating_on_table(
        &mut self,
        table_id: Option<&u128>,
        table_name: Option<&str>,
    ) -> (r: Result<(), DbError>)
        requires
            old(self).wf(),
        ensures
            final(self).wf(),
            ({
                let o = old(self)@;
                match (table_id, table_name) {
                    (Some(id), _) => {
                        &&& r is Ok <==> o.tables.contains_key(*id) && o.states[*id].n_queries_operating_on_table > 0
                        &&& r is Ok ==> final(self)@ == with_one_less_query(o, *id)
                        &&& r is Err ==> r->Err_0 is Other
                    },
                    (None, Some(name)) => {
                        &&& r is Ok <==> o.names.contains_key(name@) && o.states[o.names[name@]].n_queries_operating_on_table > 0
                        &&& r is Ok ==> final(self)@ == with_one_less_query(o, o.names[name@])
                        &&& !o.names.contains_key(name@) ==> r is Err && r->Err_0 is NotFound
                        &&& o.names.contains_key(name@) && r is Err ==> r->Err_0 is Other
                    },
                    (None, None) => r is Err && r->Err_0 is Other,
                }
            }),
            r is Err ==> final(self)@ == old(self)@,
    {
        if let Some(table_id) = table_id {
            return self.do_queries_decrease(table_id);
        }
        if let Some(table_name) = table_name {
            match self.table_name_to_id_map.get(table_name) {
                Some(table_id) => {
                    return self.do_queries_decrease(&table_id);
                },
                None => {
                    return Err(DbError::NotFound("provided table name does not exist in database".to_string()));
                },
            }
        }
        Err(DbError::Other("both table_name and table_id are None".to_string()))
    }

    /// Ends a COPY into table `table_id` (when `is_copy`; otherwise nothing
    /// happens): the copy flag must be set, and is cleared. A missing table
    /// or a flag that is not set is an `InternalDbError`.
    pub fn lift_copy_lock_from_table(&mut self, table_id: &u128, is_copy: bool) -> (r: Result<(), DbError>)
        requires
            old(self).wf(),
        ensures
            final(self).wf(),
            !is_copy ==> r is Ok && final(self)@ == old(self)@,
            is_copy ==> (r is Ok <==> old(self)@.tables.contains_key(*table_id)
                && old(self)@.states[*table_id].copy_flag == CopyFlag::CopyInProgress),
            is_copy && r is Ok ==> final(self)@ == with_copy_flag(old(self)@, *table_id, CopyFlag::NoCopy),
            r is Err ==> r->Err_0 is InternalDbError && final(self)@ == old(self)@,
    {
        if !is_copy {
            return Ok(());
        }
        match self.find_table(table_id) {
            Some(i) => {
                let s = self.tables_states[i];
                match s.copy_flag {
                    CopyFlag::NoCopy => Err(DbError::InternalDbError(
                        "COPY QUERY ended, however copy flag wasn't set to CopyInProgress".to_string(),
                    )),
                    CopyFlag::CopyInProgress => {
                        self.tables_states.set(i, TableState { copy_flag: CopyFlag::NoCopy, ..s });
                        proof {
                            DbMetadata::lemma_set_state(*old(self), *self, i as int);
                        }
                        Ok(())
                    },
                }
            },
            None => Err(DbError::InternalDbError("copy query, table_id not found".to_string())),
        }
    }

    /// Starts a COPY into table `table_id` if none is running: `Ok(true)`
    /// with the flag now set, or `Ok(false)` with nothing changed. A missing
    /// table is an `InternalDbError`.
    pub fn acquire_copy_lock_for_table(&mut self, table_id: &u128) -> (r: Result<bool, DbError>)
        requires
            old(self).wf(),
        ensures
            final(self).wf(),
            r is Ok <==> old(self)@.tables.contains_key(*table_id),
            r matches Ok(b) ==> b == (old(self)@.states[*table_id].copy_flag == CopyFlag::NoCopy),
            r == Ok::<bool, DbError>(true) ==> final(self)@ == with_copy_flag(old(self)@, *table_id, CopyFlag::CopyInProgress),
            r != Ok::<bool, DbError>(true) ==> final(self)@ == old(self)@,
            r is Err ==> r->Err_0 is InternalDbError,
    {
        match self.find_table(table_id) {
            Some(i) => {
                let s = self.tables_states[i];
                if s.copy_flag == CopyFlag::NoCopy {
                    self.tables_states.set(i, TableState { copy_flag: CopyFlag::CopyInProgress, ..s });
                    proof {
                        DbMetadata::lemma_set_state(*old(self), *self, i as int);
                    }
                    return Ok(true);
                }
                Ok(false)
            },
            None => Err(DbError::InternalDbError("table_id is not present in table states".to_string())),
        }
    }

    /// Whether enough changes were made to save the metadata.
    pub fn is_enough_changes(&self) -> (r: bool)
        ensures
            r == (self@.changes >= crate::db::constants::MAX_ALLOWED_METADATA_CHANGES),
    {
        self.nbr_of_metadata_changes >= crate::db::constants::MAX_ALLOWED_METADATA_CHANGES
    }

    /// Forgets the changes made (after the metadata was saved).
    pub fn reset_changes(&mut self)
        requires
            old(self).wf(),
        ensures
            final(self).wf(),
            final(self)@ == (DbMetadataView { changes: 0, ..old(self)@ }),
    {
        self.nbr_of_metadata_changes = 0;
    }

    /// The id the name leads to; `InternalDbError` if none.
    pub fn get_table_id(&self, table_name: &str) -> (r: Result<u128, DbError>)
        requires
            self.wf(),
        ensures
            r is Ok <==> self@.names.contains_key(table_name@),
            r matches Ok(id) ==> id == self@.names[table_name@],
            r is Err ==> r->Err_0 is InternalDbError,
    {
        match self.table_name_to_id_map.get(table_name) {
            Some(id) => Ok(id),
            None => Err(DbError::InternalDbError("no table with that name in db".to_string())),
        }
    }
}

} // verus!

verus! {

/// The views of (column name, last file id) pairs.
pub open spec fn name_id_pairs(s: Seq<(String, u16)>) -> Seq<(Seq<char>, u16)> {
    s.map_values(|p: (String, u16)| (p.0@, p.1))
}

/// A column with paths added for its files up to id `last`: one for each
/// id from the first free one (the number of files it has) to `last`.
pub open spec fn with_files_up_to(c: ColMetadataView, dir: Seq<char>, tid: u128, tname: Seq<char>, last: nat) -> ColMetadataView {
    let free = c.files.len();
    let n: nat = if last + 1 > free { (last + 1 - free) as nat } else { 0 };
    ColMetadataView {
        files: c.files + Seq::new(n, |k: int| file_path_text(dir, tid, tname, c.name, (free + k) as nat)),
        ..c
    }
}

/// The columns with [`with_files_up_to`] applied to the first `upto` of
/// them, each with the last id given for it.
pub open spec fn columns_with_files(
    cols: Seq<ColMetadataView>,
    latest: Seq<(Seq<char>, u16)>,
    dir: Seq<char>,
    tid: u128,
    tname: Seq<char>,
    upto: int,
) -> Seq<ColMetadataView> {
    Seq::new(
        cols.len(),
        |j: int| if j < upto { with_files_up_to(cols[j], dir, tid, tname, latest[j].1 as nat) } else { cols[j] },
    )
}

/// The metadata with the columns of table `id` replaced.
pub open spec fn with_table_columns(v: DbMetadataView, id: u128, cols: Seq<ColMetadataView>) -> DbMetadataView {
    DbMetadataView { tables: v.tables.insert(id, TableMetadataView { columns: cols, ..v.tables[id] }), ..v }
}

impl TableMap {
    /// Replacing the table stored at `i` replaces the table under its id.
    proof fn lemma_replace_entry(a: TableMap, b: TableMap, i: int)
        requires
            a.wf(),
            0 <= i < a.entries@.len(),
            b.entries@ == a.entries@.update(i, (a.entries@[i].0, b.entries@[i].1)),
        ensures
            b.wf(),
            b.ids() == a.ids(),
            b@ == a@.insert(a.ids()[i], b.entries@[i].1@),
    {
        assert(b.ids() =~= a.ids());
        a.lemma_entry(i);
        b.lemma_entry(i);
        assert forall|k: u128| #[trigger] b@.contains_key(k) == a@.insert(a.ids()[i], b.entries@[i].1@).contains_key(k) by {}
        assert forall|k: u128| b@.contains_key(k) implies #[trigger] b@[k] == a@.insert(a.ids()[i], b.entries@[i].1@)[k] by {
            let x = b.ids().index_of(k);
            assert(b.ids().contains(k));
            lemma_index_of_unique(b.ids(), x);
            a.lemma_entry(x);
            b.lemma_entry(x);
        }
        assert(b@ =~= a@.insert(a.ids()[i], b.entries@[i].1@));
    }
}

impl DbMetadata {
    /// Records the data files a COPY created: for each column of table
    /// `table_id`, in order, `latest_columns_file_ids` gives its name and the
    /// id of its last file, and the column gets the paths of its files up to
    /// that id (see [`with_files_up_to`]). A missing table, a different
    /// number of columns, or a name that differs from the column's is an
    /// `InternalDbError`; the columns before a differing name keep the paths
    /// they got.
    pub fn append_newly_created_column_files(
        &mut self,
        table_id: &u128,
        latest_columns_file_ids: Vec<(String, u16)>,
    ) -> (r: Result<(), DbError>)
        requires
            old(self).wf(),
        ensures
            final(self).wf(),
            ({
                let o = old(self)@;
                let lv = name_id_pairs(latest_columns_file_ids@);
                let id = *table_id;
                let t = o.tables[id];
                &&& !o.tables.contains_key(id) ==> r is Err && final(self)@ == o
                &&& o.tables.contains_key(id) && t.columns.len() != lv.len() ==> r is Err && final(self)@ == o
                &&& r is Ok <==> o.tables.contains_key(id) && t.columns.len() == lv.len()
                    && forall|j: int| 0 <= j < lv.len() ==> #[trigger] t.columns[j].name == lv[j].0
                &&& r is Ok ==> final(self)@ == with_table_columns(
                    o,
                    id,
                    columns_with_files(t.columns, lv, o.db_data_dir_path, id, t.name, t.columns.len() as int),
                )
                &&& r is Err ==> r->Err_0 is InternalDbError
                &&& o.tables.contains_key(id) && t.columns.len() == lv.len() && r is Err ==> exists|m: int|
                    0 <= m < lv.len() && (forall|j: int| 0 <= j < m ==> #[trigger] t.columns[j].name == lv[j].0)
                        && t.columns[m].name != lv[m].0 && final(self)@ == with_table_columns(
                        o,
                        id,
                        #[trigger] columns_with_files(t.columns, lv, o.db_data_dir_path, id, t.name, m),
                    )
            }),
    {
        let ghost o = self@;
        let ghost lv = name_id_pairs(latest_columns_file_ids@);
        let ghost t0 = o.tables[*table_id];
        let i = match self.find_table(table_id) {
            Some(i) => i,
            None => {
                return Err(DbError::InternalDbError("given table id doesn't exist in tables metadata".to_string()));
            },
        };
        proof {
            self.lemma_state_at(i as int);
        }
        if self.tables_metadata.entries[i].1.columns.len() != latest_columns_file_ids.len() {
            return Err(DbError::InternalDbError(
                "number of columns in table metadata differs from the number of latest column file ids".to_string(),
            ));
        }
        let ghost old_self = *self;
        let ghost old_map = self.tables_metadata;
        let (tid, mut t) = self.tables_metadata.entries.remove(i);
        let table_name = t.table_name.clone();
        let n = latest_columns_file_ids.len();
        let mut j: usize = 0;
        while j < n
            invariant
                n == latest_columns_file_ids@.len(),
                lv == name_id_pairs(latest_columns_file_ids@),
                j <= n,
                t@.columns.len() == n,
                t@.name == t0.name,
                t@.id == t0.id,
                t@.dir_path == t0.dir_path,
                t0.columns.len() == n,
                table_name@ == t0.name,
                forall|x: int| 0 <= x < j ==> #[trigger] t0.columns[x].name == lv[x].0,
                t@.columns == columns_with_files(t0.columns, lv, o.db_data_dir_path, *table_id, t0.name, j as int),
                self.db_data_dir_path@ == o.db_data_dir_path,
                self.tables_metadata.entries@ == old_map.entries@.remove(i as int),
                old_self.wf(),
                o == old_self@,
                o == old(self)@,
                o.tables.contains_key(*table_id),
                old_map == old_self.tables_metadata,
                i < old_map.entries@.len(),
                old_map.entries@[i as int].0 == *table_id,
                tid == *table_id,
                t0 == o.tables[*table_id],
                self.tables_states == old_self.tables_states,
                self.table_name_to_id_map == old_self.table_name_to_id_map,
                self.table_count == old_self.table_count,
                self.db_data_dir_path == old_self.db_data_dir_path,
                self.metadata_file_path == old_self.metadata_file_path,
                self.nbr_of_metadata_changes == old_self.nbr_of_metadata_changes,
            decreases n - j,
        {
            let col_name = &latest_columns_file_ids[j].0;
            let last_id = latest_columns_file_ids[j].1;
            proof {
                assert(lv[j as int] == (col_name@, last_id));
                assert(t@.columns[j as int] == t.columns@[j as int]@);
                assert(t@.columns[j as int] == t0.columns[j as int]);
            }
            if t.columns[j].c_name != *col_name {
                let ghost upd = t@;
                self.tables_metadata.entries.insert(i, (tid, t));
                proof {
                    self.finish_column_update(old_self, old_map, i as int, *table_id, upd, o);
                    assert(t0.columns[j as int].name != lv[j as int].0);
                    assert(self@ == with_table_columns(
                        o,
                        *table_id,
                        columns_with_files(t0.columns, lv, o.db_data_dir_path, *table_id, t0.name, j as int),
                    ));
                }
                return Err(DbError::InternalDbError("column name mismatch between table and provided names".to_string()));
            }
            let last = last_id as usize;
            let free = t.columns[j].c_files.len();
            let ghost c0 = t0.columns[j as int];
            let ghost cols_before = t.columns@;
            let ghost cw_before = t@.columns;
            let mut k: usize = free;
            while k <= last
                invariant
                    j < n,
                    t.columns@.len() == n,
                    cols_before.len() == n,
                    free == c0.files.len(),
                    free <= k,
                    k <= last + 1 || k == free,
                    last == last_id as usize,
                    col_name@ == c0.name,
                    table_name@ == t0.name,
                    self.db_data_dir_path@ == o.db_data_dir_path,
                    t.columns@[j as int]@ == (ColMetadataView {
                        files: c0.files + Seq::new((k - free) as nat, |x: int| file_path_text(o.db_data_dir_path, *table_id, t0.name, c0.name, (free + x) as nat)),
                        ..c0
                    }),
                    forall|x: int| 0 <= x < n && x != j ==> #[trigger] t.columns@[x] == cols_before[x],
                    t.table_name == table_name || t@.name == t0.name,
                    t@.name == t0.name,
                    t@.id == t0.id,
                    t@.dir_path == t0.dir_path,
                decreases last + 1 - k,
            {
                let p = create_file_path(self.db_data_dir_path.as_str(), table_id, table_name.as_str(), col_name.as_str(), k);
                let ghost before = t.columns@[j as int]@;
                t.columns[j].push_col_file(p);
                proof {
                    assert(t.columns@[j as int]@.files == before.files.push(p@));
                    assert(c0.files + Seq::new((k + 1 - free) as nat, |x: int| file_path_text(o.db_data_dir_path, *table_id, t0.name, c0.name, (free + x) as nat))
                        =~= (c0.files + Seq::new((k - free) as nat, |x: int| file_path_text(o.db_data_dir_path, *table_id, t0.name, c0.name, (free + x) as nat))).push(p@));
                }
                k = k + 1;
            }
            proof {
                let cw = columns_with_files(t0.columns, lv, o.db_data_dir_path, *table_id, t0.name, j + 1);
                assert(cw[j as int] == with_files_up_to(c0, o.db_data_dir_path, *table_id, t0.name, last_id as nat));
                assert(t@.columns =~= cw) by {
                    assert forall|x: int| 0 <= x < n implies #[trigger] t@.columns[x] == cw[x] by {
                        assert(t@.columns[x] == t.columns@[x]@);
                        if x != j {
                            assert(t.columns@[x] == cols_before[x]);
                            assert(cw_before[x] == cols_before[x]@);
                            assert(cw_before[x] == cw[x]);
                        } else {
                            assert(k - free == (if last_id + 1 > free { (last_id + 1 - free) as nat } else { 0nat }));
                            assert(t@.columns[x].files =~= cw[x].files);
                            assert(t@.columns[x].name == cw[x].name);
                            assert(t@.columns[x].col_type == cw[x].col_type);
                        }
                    }
                }
            }
            j = j + 1;
        }
        let ghost upd = t@;
        self.tables_metadata.entries.insert(i, (tid, t));
        proof {
            self.finish_column_update(old_self, old_map, i as int, *table_id, upd, o);
        }
        Ok(())
    }

    /// After the table at `i` is put back with new columns, the metadata is
    /// that of [`with_table_columns`].
    proof fn finish_column_update(
        &self,
        old_self: DbMetadata,
        old_map: TableMap,
        i: int,
        id: u128,
        upd: TableMetadataView,
        o: DbMetadataView,
    )
        requires
            old_self.wf(),
            o == old_self@,
            old_map == old_self.tables_metadata,
            0 <= i < old_map.entries@.len(),
            old_map.entries@[i].0 == id,
            upd.name == o.tables[id].name,
            upd.id == o.tables[id].id,
            upd.dir_path == o.tables[id].dir_path,
            self.tables_metadata.entries@.len() == old_map.entries@.len(),
            self.tables_metadata.entries@[i].0 == id,
            self.tables_metadata.entries@[i].1@ == upd,
            forall|x: int| 0 <= x < old_map.entries@.len() && x != i ==> #[trigger] self.tables_metadata.entries@[x]
                == old_map.entries@[x],
            self.tables_states == old_self.tables_states,
            self.table_name_to_id_map == old_self.table_name_to_id_map,
            self.table_count == old_self.table_count,
            self.db_data_dir_path == old_self.db_data_dir_path,
            self.metadata_file_path == old_self.metadata_file_path,
            self.nbr_of_metadata_changes == old_self.nbr_of_metadata_changes,
        ensures
            self.wf(),
            self@ == with_table_columns(o, id, upd.columns),
    {
        assert(self.tables_metadata.entries@ =~= old_map.entries@.update(i, (old_map.entries@[i].0, self.tables_metadata.entries@[i].1)));
        TableMap::lemma_replace_entry(old_map, self.tables_metadata, i);
        old_map.lemma_entry(i);
        assert(upd == TableMetadataView { columns: upd.columns, ..o.tables[id] });
        assert(self@.tables =~= o.tables.insert(id, TableMetadataView { columns: upd.columns, ..o.tables[id] }));
        assert(self@.states =~= o.states);
        assert forall|nm: Seq<char>| #[trigger] self@.names.contains_key(nm) implies self@.tables.contains_key(self@.names[nm])
            && self@.tables[self@.names[nm]].name == nm by {
            assert(o.names.contains_key(nm));
        }
    }
}

} // verus!

verus! {

impl DbMetadata {
    /// Plans a query: if it is authorized (see
    /// [`DbMetadata::authorize_query`]) the query goes to PLANNING and the
    /// work for it is returned, with a copy of what is known of its table;
    /// otherwise `NotFound` and the query is left as it was.
    pub fn plan_query_execution(&self, q: &mut Query) -> (r: Result<QueryData, DbError>)
        requires
            self.wf(),
        ensures
            ({
                let t = query_table(old(q)@.query_definition);
                &&& r is Ok <==> query_authorized(self@, t)
                &&& r is Err ==> r->Err_0 is NotFound && final(q)@ == old(q)@
                &&& r matches Ok(d) ==> {
                    &&& final(q)@ == with_status(old(q)@, QueryStatus::PLANNING)
                    &&& d.spec_query_id() == old(q)@.query_id
                    &&& d.spec_table_metadata() == self@.tables[self@.names[t]]
                    &&& match old(q)@.query_definition {
                        AllowedQueryView::SelectQ(_) => d is SelectQ,
                        AllowedQueryView::CopyQ(c) => d matches QueryData::CopyQ(cq) && cq.spec_copy_query() == c,
                    }
                }
            }),
    {
        self.authorize_query(q.query_def())?;
        q.update_status(QueryStatus::PLANNING);
        let q_id = *q.id();
        let table_id = match self.table_name_to_id_map.get(q.table_name()) {
            Some(id) => id,
            None => {
                return Err(DbError::NotFound("no table of that name".to_string()));
            },
        };
        let table_meta = match self.tables_metadata.get(&table_id) {
            Some(t) => t.duplicate(),
            None => {
                return Err(DbError::NotFound("no table of that id".to_string()));
            },
        };
        match q.query_def() {
            AllowedQuery::SelectQ(_) => Ok(QueryData::SelectQ(SelectQData::new(q_id, table_meta))),
            AllowedQuery::CopyQ(c_q) => Ok(QueryData::CopyQ(CopyQData::new(q_id, c_q.duplicate(), table_meta))),
        }
    }
}

} // verus!

verus! {

impl TableMap {
    /// A copy.
    pub fn duplicate(&self) -> (r: TableMap)
        requires
            self.wf(),
        ensures
            r.wf(),
            r@ == self@,
            r.ids() == self.ids(),
    {
        let mut entries: Vec<(u128, TableMetadata)> = Vec::new();
        let mut i: usize = 0;
        while i < self.entries.len()
            invariant
                i <= self.entries@.len(),
                entries@.len() == i,
                forall|j: int| 0 <= j < i ==> (#[trigger] entries@[j]).0 == self.entries@[j].0 && entries@[j].1@ == self.entries@[j].1@,
            decreases self.entries@.len() - i,
        {
            entries.push((self.entries[i].0, self.entries[i].1.duplicate()));
            i = i + 1;
        }
        let r = TableMap { entries };
        proof {
            assert(r.ids() =~= self.ids());
            assert forall|k: u128| #[trigger] r@.contains_key(k) == self@.contains_key(k) by {}
            assert forall|k: u128| r@.contains_key(k) implies #[trigger] r@[k] == self@[k] by {
                let x = r.ids().index_of(k);
                assert(r.ids().contains(k));
                lemma_index_of_unique(r.ids(), x);
                r.lemma_entry(x);
                self.lemma_entry(x);
            }
            assert(r@ =~= self@);
        }
        r
    }
}

impl TableNameMap {
    fn duplicate(&self) -> (r: TableNameMap)
        requires
            self.wf(),
        ensures
            r.wf(),
            r@ == self@,
    {
        let names = copy_strings(&self.names);
        let ids = self.ids.clone();
        let r = TableNameMap { names, ids };
        proof {
            assert(r.ids@ =~= self.ids@);
            assert(r.keys() =~= self.keys());
            assert(r@ =~= self@);
        }
        r
    }
}

impl DbMetadata {
    /// A copy, to be saved.
    pub fn duplicate(&self) -> (r: DbMetadata)
        requires
            self.wf(),
        ensures
            r.wf(),
            r@ == self@,
    {
        let r = DbMetadata {
            table_count: self.table_count,
            tables_metadata: self.tables_metadata.duplicate(),
            db_data_dir_path: self.db_data_dir_path.clone(),
            metadata_file_path: self.metadata_file_path.clone(),
            tables_states: self.tables_states.clone(),
            table_name_to_id_map: self.table_name_to_id_map.duplicate(),
            nbr_of_metadata_changes: self.nbr_of_metadata_changes,
        };
        proof {
            assert(r.tables_states@ =~= self.tables_states@);
            assert(r@.states =~= self@.states);
        }
        r
    }
}

} // verus!

verus! {

impl DbMetadata {
    /// Whether table `table_id` may be deleted now: it is marked for
    /// deletion and no query works on it. `NotFound` if there is no such
    /// table.
    pub fn can_table_be_deleted(&self, table_id: &u128) -> (r: Result<bool, DbError>)
        requires
            self.wf(),
        ensures
            r is Ok <==> self@.tables.contains_key(*table_id),
            r matches Ok(b) ==> b == (self@.states[*table_id].delete_flag == DeleteFlag::DoDelete
                && self@.states[*table_id].n_queries_operating_on_table == 0),
            r is Err ==> r->Err_0 is NotFound,
    {
        match self.find_table(table_id) {
            Some(i) => {
                let s = self.tables_states[i];
                Ok(s.delete_flag == DeleteFlag::DoDelete && s.n_queries_operating_on_table == 0)
            },
            None => Err(DbError::NotFound("no table with that id in db".to_string())),
        }
    }

    /// The state of table `table_id`, if there is such a table.
    pub fn table_state(&self, table_id: &u128) -> (r: Option<TableState>)
        requires
            self.wf(),
        ensures
            r is Some <==> self@.tables.contains_key(*table_id),
            r matches Some(s) ==> s == self@.states[*table_id],
    {
        match self.find_table(table_id) {
            Some(i) => Some(self.tables_states[i]),
            None => None,
        }
    }

    /// What is known of table `table_id`; `NotFound` if there is no such
    /// table.
    pub fn get_table_metadata(&self, table_id: &u128) -> (r: Result<&TableMetadata, DbError>)
        requires
            self.wf(),
        ensures
            r is Ok <==> self@.tables.contains_key(*table_id),
            r matches Ok(t) ==> t@ == self@.tables[*table_id],
            r is Err ==> r->Err_0 is NotFound,
    {
        match self.tables_metadata.get(table_id) {
            Some(t) => Ok(t),
            None => Err(DbError::NotFound("no table with that id in db".to_string())),
        }
    }
}

} // verus!

verus! {

/// The index of each column name among the columns of a table; where a
/// name occurs twice, its last position.
#[derive(Debug)]
pub struct ColumnIndexMap {
    names: Vec<String>,
}

impl View for ColumnIndexMap {
    type V = Seq<Seq<char>>;

    /// The column names, in order.
    closed spec fn view(&self) -> Seq<Seq<char>> {
        name_views(self.names@)
    }
}

/// The position `name` has in `names`: its last one.
pub open spec fn last_position(names: Seq<Seq<char>>, name: Seq<char>, i: int) -> bool {
    0 <= i < names.len() && names[i] == name && forall|j: int| i < j < names.len() ==> #[trigger] names[j] != name
}

impl ColumnIndexMap {
    /// The index of `name`: its last position among the names; `None` if
    /// it is not a name.
    pub fn get(&self, name: &str) -> (r: Option<usize>)
        ensures
            r is None <==> !self@.contains(name@),
            r matches Some(i) ==> last_position(self@, name@, i as int),
    {
        let key = name.to_owned();
        let mut i: usize = self.names.len();
        while i > 0
            invariant
                i <= self.names@.len(),
                key@ == name@,
                forall|j: int| i <= j < self.names@.len() ==> #[trigger] self@[j] != name@,
            decreases i,
        {
            i = i - 1;
            if self.names[i] == key {
                proof {
                    assert(self@[i as int] == self.names@[i as int]@);
                    assert(self@.contains(name@));
                }
                return Some(i);
            }
        }
        proof {
            if self@.contains(name@) {
                let j = choose|j: int| 0 <= j < self@.len() && self@[j] == name@;
                assert(self@[j] != name@);
            }
        }
        None
    }

    pub fn contains_key(&self, name: &str) -> (r: bool)
        ensures
            r == self@.contains(name@),
    {
        self.get(name).is_some()
    }

    /// The names, in order.
    pub fn names(&self) -> (r: &Vec<String>)
        ensures
            r@.map_values(|s: String| s@) == self@,
    {
        &self.names
    }
}

impl TableMetadata {
    /// The index of each column name (see [`ColumnIndexMap`]).
    pub fn get_column_name_to_index_map(&self) -> (r: ColumnIndexMap)
        ensures
            r@ == self@.columns.map_values(|c: ColMetadataView| c.name),
    {
        let mut names: Vec<String> = Vec::new();
        let mut i: usize = 0;
        while i < self.columns.len()
            invariant
                i <= self.columns@.len(),
                name_views(names@) == self@.columns.map_values(|c: ColMetadataView| c.name).take(i as int),
            decreases self.columns@.len() - i,
        {
            let ghost prev = names@;
            let n = self.columns[i].c_name.clone();
            names.push(n);
            proof {
                assert(self@.columns[i as int] == self.columns@[i as int]@);
                assert(name_views(names@) =~= name_views(prev).push(n@));
                assert(self@.columns.map_values(|c: ColMetadataView| c.name).take(i + 1) =~= self@.columns.map_values(
                    |c: ColMetadataView| c.name,
                ).take(i as int).push(n@));
            }
            i = i + 1;
        }
        let r = ColumnIndexMap { names };
        assert(self@.columns.map_values(|c: ColMetadataView| c.name).take(i as int) =~= self@.columns.map_values(
            |c: ColMetadataView| c.name,
        ));
        r
    }
}

} // verus!

verus! {

impl TableMetadata {
    /// The end of reading a table: the row count agreed by all columns
    /// (see [`TableMetadata::check_row_count`]); none at all means the table
    /// has no columns, an `InternalDbError`.
    pub fn finish_read_table(row_count: Option<i32>, q_res: QueryResult) -> (r: Result<(QueryResult, i32), DbError>)
        ensures
            r is Ok <==> row_count is Some,
            r matches Ok((q, n)) ==> q == q_res && Some(n) == row_count,
            r is Err ==> r->Err_0 is InternalDbError,
    {
        match row_count {
            None => Err(DbError::InternalDbError(
                "final row count is NONE, the table has zero columns, which is not allowed".to_string(),
            )),
            Some(n) => Ok((q_res, n)),
        }
    }
}

} // verus!

verus! {

/// Law: one more query on a table and then one less leaves the metadata as
/// it was.
pub proof fn law_query_count_round_trip(m: DbMetadata, id: u128)
    requires
        m.wf(),
        m@.tables.contains_key(id),
        m@.states[id].n_queries_operating_on_table < u16::MAX,
    ensures
        with_one_less_query(with_one_more_query(m@, id), id) == m@,
{
    m.lemma_wf();
    let v = m@;
    let w = with_one_less_query(with_one_more_query(v, id), id);
    assert(w.states =~= v.states);
}

/// Law: taking the copy lock of a free table and lifting it again leaves
/// the metadata as it was.
pub proof fn law_copy_lock_round_trip(m: DbMetadata, id: u128)
    requires
        m.wf(),
        m@.tables.contains_key(id),
        m@.states[id].copy_flag == CopyFlag::NoCopy,
    ensures
        with_copy_flag(with_copy_flag(m@, id, CopyFlag::CopyInProgress), id, CopyFlag::NoCopy) == m@,
{
    m.lemma_wf();
    let v = m@;
    let w = with_copy_flag(with_copy_flag(v, id, CopyFlag::CopyInProgress), id, CopyFlag::NoCopy);
    assert(w.states =~= v.states);
}

/// Law: a table just put in is open to queries under its name.
pub proof fn law_put_table_is_queryable(
    m: DbMetadata,
    schema: (Seq<char>, Seq<(Seq<char>, LogicalColType)>),
    id: u128,
)
    requires
        m.wf(),
    ensures
        query_authorized(after_put(m@, schema, id), schema.0),
{
}

/// Law: once a table is marked for deletion, no query is accepted on it.
pub proof fn law_marked_table_refuses_queries(m: DbMetadata, name: Seq<char>)
    requires
        m.wf(),
        m@.names.contains_key(name),
    ensures
        ({
            let id = m@.names[name];
            !query_authorized(
                with_state(m@, id, TableState { delete_flag: DeleteFlag::DoDelete, ..m@.states[id] }),
                name,
            )
        }),
{
}

/// Each table is the one its name leads to: no two tables share a name.
pub open spec fn names_one_to_one(v: DbMetadataView) -> bool {
    forall|id: u128| #[trigger] v.tables.contains_key(id) ==> v.names.contains_key(v.tables[id].name) && v.names[v.tables[id].name] == id
}

/// Law: adding a table, which [`DbMetadata::put_table_with_id`] does only
/// under a name no table has, keeps each table the one its name leads to.
pub proof fn law_put_table_keeps_names_one_to_one(
    m: DbMetadata,
    schema: (Seq<char>, Seq<(Seq<char>, LogicalColType)>),
    id: u128,
)
    requires
        m.wf(),
        names_one_to_one(m@),
        !m@.tables.contains_key(id),
        !m@.names.contains_key(schema.0),
    ensures
        names_one_to_one(after_put(m@, schema, id)),
{
    let v = m@;
    let p = after_put(v, schema, id);
    assert forall|k: u128| #[trigger] p.tables.contains_key(k) implies p.names.contains_key(p.tables[k].name)
        && p.names[p.tables[k].name] == k by {
        if k != id {
            assert(v.tables.contains_key(k));
            assert(v.names.contains_key(v.tables[k].name));
            assert(v.tables[k].name != schema.0);
        }
    }
}

/// Law: deleting a table keeps each remaining table the one its name leads
/// to.
pub proof fn law_delete_table_keeps_names_one_to_one(m: DbMetadata, id: u128)
    requires
        m.wf(),
        names_one_to_one(m@),
        m@.tables.contains_key(id),
    ensures
        names_one_to_one(after_delete(m@, id)),
{
    let v = m@;
    let d = after_delete(v, id);
    assert forall|k: u128| #[trigger] d.tables.contains_key(k) implies d.names.contains_key(d.tables[k].name)
        && d.names[d.tables[k].name] == k by {
        assert(v.tables.contains_key(k) && k != id);
        assert(v.names[v.tables[k].name] == k);
        assert(v.names[v.tables[id].name] == id);
        assert(v.tables[k].name != v.tables[id].name);
    }
}

/// Law: putting a table in, marking it for deletion and deleting it leaves
/// the metadata as it was, but for one more change counted.
pub proof fn law_put_mark_delete(m: DbMetadata, schema: (Seq<char>, Seq<(Seq<char>, LogicalColType)>), id: u128)
    requires
        m.wf(),
        !m@.tables.contains_key(id),
        !m@.names.contains_key(schema.0),
        m@.table_count < u16::MAX,
        m@.changes < u16::MAX,
    ensures
        ({
            let p = after_put(m@, schema, id);
            let k = with_state(p, id, TableState { delete_flag: DeleteFlag::DoDelete, ..p.states[id] });
            after_delete(k, id) == (DbMetadataView { changes: (m@.changes + 1) as u16, ..m@ })
        }),
{
    m.lemma_wf();
    let v = m@;
    let p = after_put(v, schema, id);
    let k = with_state(p, id, TableState { delete_flag: DeleteFlag::DoDelete, ..p.states[id] });
    let d = after_delete(k, id);
    assert(!v.order.contains(id));
    assert(!v.states.contains_key(id));
    let n = v.order.len() as int;
    assert(k.order[n] == id);
    let j = k.order.index_of(id);
    assert(0 <= j < k.order.len() && k.order[j] == id);
    if j < n {
        assert(v.order[j] == id);
        assert(false);
    }
    assert(j == n);
    assert(d.order =~= v.order);
    assert(d.tables =~= v.tables);
    assert(d.states =~= v.states);
    assert(k.tables[id].name == schema.0);
    assert(d.names =~= v.names);
}

} // verus!

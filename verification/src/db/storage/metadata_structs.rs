//! The first form of the table metadata: the columns of a table kept by
//! name, and paths under the fixed data directory.
use vstd::prelude::*;
use vstd::utf8::is_ascii_chars;
use crate::db::constants::{LogicalColType, DB_DATA_DIR, MAX_COL_COUNT, MAX_COL_NAME_LEN};
use crate::db::errors::DbError;
use crate::db::manager::id_map::IdMap;
use crate::db::storage::metadata::{dir_path_text, file_path_text, file_path_shape};
use crate::db::storage::name_map::NameMap;
use crate::db::storage::text::{byte_len, str_byte_len};
use crate::external::regex_api::regex_match;
use crate::schemas::column::Column;
use crate::schemas::query::{copy_strings, string_seq_view};
use crate::schemas::table::TableSchema;

verus! {

/// A column: its name, type and data file paths.
#[derive(Debug)]
pub struct ColMetadata {
    c_name: String,
    c_type: LogicalColType,
    c_files: Vec<String>,
}

impl View for ColMetadata {
    type V = (Seq<char>, LogicalColType, Seq<Seq<char>>);

    closed spec fn view(&self) -> (Seq<char>, LogicalColType, Seq<Seq<char>>) {
        (self.c_name@, self.c_type, string_seq_view(self.c_files@))
    }
}

impl ColMetadata {
    /// A column without files.
    pub fn new(c_name: &str, c_type: LogicalColType) -> (r: ColMetadata)
        ensures
            r@ == (c_name@, c_type, Seq::<Seq<char>>::empty()),
    {
        let r = ColMetadata { c_name: c_name.to_owned(), c_type, c_files: Vec::new() };
        assert(r@.2 =~= Seq::<Seq<char>>::empty());
        r
    }

    /// Records one more data file.
    pub fn push_col_file(&mut self, file_path: String)
        ensures
            final(self)@ == (old(self)@.0, old(self)@.1, old(self)@.2.push(file_path@)),
    {
        let ghost before = self.c_files@;
        self.c_files.push(file_path);
        assert(string_seq_view(self.c_files@) =~= string_seq_view(before).push(file_path@));
    }

    pub fn c_name(&self) -> (r: &str)
        ensures
            r@ == self@.0,
    {
        self.c_name.as_str()
    }

    pub fn c_type(&self) -> (r: LogicalColType)
        ensures
            r == self@.1,
    {
        self.c_type
    }
}

/// The columns of a table by name, in the order they were put in.
pub type ColumnMap = NameMap<ColMetadata>;

/// A column entry may be loaded: the name it is kept under is its own, of
/// at most [`MAX_COL_NAME_LEN`] bytes, and ASCII.
pub open spec fn column_entry_ok(e: (Seq<char>, ColMetadata)) -> bool {
    &&& e.0 == e.1@.0
    &&& byte_len(e.1@.0) <= MAX_COL_NAME_LEN
    &&& is_ascii_chars(e.1@.0)
}

/// The error for a column entry that may not be loaded, checked in the
/// order of [`column_entry_ok`].
pub open spec fn column_entry_error_is(e: (Seq<char>, ColMetadata), err: DbError) -> bool {
    if e.0 != e.1@.0 {
        err is Other
    } else if byte_len(e.1@.0) > MAX_COL_NAME_LEN {
        err matches DbError::SizeExceeded { max, .. } && max == MAX_COL_NAME_LEN
    } else {
        err matches DbError::InvalidColumnName { name, .. } && name@ == e.1@.0
    }
}

/// Checks every column entry with [`column_entry_ok`]; the error is that of
/// the first bad entry.
pub fn are_columns_ok(columns: &ColumnMap, table_name: &str) -> (r: Result<(), DbError>)
    requires
        columns.wf(),
    ensures
        r is Ok <==> forall|i: int| 0 <= i < columns@.len() ==> column_entry_ok(#[trigger] columns@[i]),
        r matches Err(e) ==> exists|i: int|
            0 <= i < columns@.len() && !column_entry_ok(#[trigger] columns@[i]) && column_entry_error_is(columns@[i], e)
                && forall|j: int| 0 <= j < i ==> column_entry_ok(#[trigger] columns@[j]),
{
    let _ = table_name;
    let mut i: usize = 0;
    while i < columns.len()
        invariant
            columns.wf(),
            i <= columns@.len(),
            forall|j: int| 0 <= j < i ==> column_entry_ok(#[trigger] columns@[j]),
        decreases columns@.len() - i,
    {
        let (key, col) = columns.entry_at(i);
        if *key != col.c_name {
            return Err(DbError::Other("name of column in map key differs from the name in its metadata".to_string()));
        }
        if str_byte_len(col.c_name.as_str()) > MAX_COL_NAME_LEN {
            return Err(DbError::SizeExceeded {
                msg: "column name length exceeds MAX_COL_NAME_LEN".to_string(),
                max: MAX_COL_NAME_LEN,
            });
        }
        if !col.c_name.as_str().is_ascii() {
            return Err(DbError::InvalidColumnName {
                msg: "column name has non-ASCII characters".to_string(),
                name: col.c_name.clone(),
            });
        }
        i = i + 1;
    }
    Ok(())
}

/// The data file path of a column: `./db_data/{table_id}_{table_name}/{col_name}_{idx}`.
pub fn create_file_path(table_id: &u128, table_name: &str, col_name: &str, idx: usize) -> (r: String)
    ensures
        r@ == file_path_text(DB_DATA_DIR@, *table_id, table_name@, col_name@, idx as nat),
{
    crate::db::storage::metadata::create_file_path(DB_DATA_DIR, table_id, table_name, col_name, idx)
}

/// The directory of a table: `./db_data/{table_id}_{table_name}`.
pub fn create_dir_path(table_id: &u128, table_name: &str) -> (r: String)
    ensures
        r@ == dir_path_text(DB_DATA_DIR@, *table_id, table_name@),
{
    crate::db::storage::metadata::create_dir_path(DB_DATA_DIR, table_id, table_name)
}

/// The schema of a table kept as its name and its columns by name: the
/// columns in the order of the map, each under the name it is kept under.
pub fn parse_table_metadata_into_table_schema(t_meta: &(String, ColumnMap)) -> (r: TableSchema)
    requires
        t_meta.1.wf(),
    ensures
        r@.0 == t_meta.0@,
        r@.1 == t_meta.1@.map_values(|e: (Seq<char>, ColMetadata)| (e.0, e.1@.1)),
{
    let (table_name, col_map) = t_meta;
    let mut t_schema = TableSchema::new(table_name.as_str());
    let ghost target = col_map@.map_values(|e: (Seq<char>, ColMetadata)| (e.0, e.1@.1));
    let mut i: usize = 0;
    while i < col_map.len()
        invariant
            col_map.wf(),
            target == col_map@.map_values(|e: (Seq<char>, ColMetadata)| (e.0, e.1@.1)),
            i <= col_map@.len(),
            t_schema@.0 == table_name@,
            t_schema@.1 == target.take(i as int),
        decreases col_map@.len() - i,
    {
        let (name, c) = col_map.entry_at(i);
        let col = Column::new(name.as_str(), &c.c_type);
        t_schema.push_col(&col);
        proof {
            assert(target[i as int] == (name@, c@.1));
            assert(target.take(i + 1) =~= target.take(i as int).push(target[i as int]));
        }
        i = i + 1;
    }
    assert(target.take(i as int) =~= target);
    t_schema
}

/// Metadata of the first form may be loaded: the path has the form of
/// [`file_path_shape`], the count is the number of tables, and each table
/// has at most [`MAX_COL_COUNT`] columns, each a good entry (see
/// [`column_entry_ok`]).
pub open spec fn old_metadata_ok(table_count: u16, tables: Map<u128, (String, ColumnMap)>, file_path: Seq<char>) -> bool {
    &&& file_path_shape(file_path)
    &&& table_count == tables.len()
    &&& forall|id: u128| #[trigger] tables.contains_key(id) ==> tables[id].1@.len() <= MAX_COL_COUNT && (forall|i: int|
        0 <= i < tables[id].1@.len() ==> column_entry_ok(#[trigger] tables[id].1@[i]))
}

/// Checks [`old_metadata_ok`].
pub fn check_metadata_correctness(table_count: u16, table_map: &IdMap<(String, ColumnMap)>, file_path: &str) -> (r: Result<(), DbError>)
    requires
        table_map.wf(),
        forall|id: u128| #[trigger] table_map@.contains_key(id) ==> table_map@[id].1.wf(),
    ensures
        r is Ok <==> old_metadata_ok(table_count, table_map@, file_path@),
{
    match regex_match(crate::db::constants::FILE_PATH_REGEX, file_path) {
        None => {
            return Err(DbError::Other("failed to compile the file path regex".to_string()));
        },
        Some(false) => {
            return Err(DbError::Other("file path does not satisfy the file path regex".to_string()));
        },
        Some(true) => {},
    }
    let n = table_map.len();
    if table_count as usize != n {
        return Err(DbError::SizeMismatch {
            msg: "table_count has a different length than the table map".to_string(),
            size_1: table_count as usize,
            size_2: n,
        });
    }
    proof {
        table_map.lemma_ids();
    }
    let mut i: usize = 0;
    while i < n
        invariant
            table_map.wf(),
            forall|id: u128| #[trigger] table_map@.contains_key(id) ==> table_map@[id].1.wf(),
            n == table_map.ids().len(),
            i <= n,
            forall|k: u128| #[trigger] table_map@.contains_key(k) <==> table_map.ids().contains(k),
            forall|j: int| 0 <= j < i ==> {
                let t = #[trigger] table_map@[table_map.ids()[j]];
                t.1@.len() <= MAX_COL_COUNT && (forall|c: int| 0 <= c < t.1@.len() ==> column_entry_ok(#[trigger] t.1@[c]))
            },
        decreases n - i,
    {
        let (_, t) = table_map.entry_at(i);
        if t.1.len() > MAX_COL_COUNT {
            return Err(DbError::SizeExceeded {
                msg: "number of columns in table is greater than MAX_COL_COUNT".to_string(),
                max: MAX_COL_COUNT,
            });
        }
        are_columns_ok(&t.1, t.0.as_str())?;
        i = i + 1;
    }
    proof {
        assert forall|id: u128| #[trigger] table_map@.contains_key(id) implies table_map@[id].1@.len() <= MAX_COL_COUNT
            && (forall|c: int| 0 <= c < table_map@[id].1@.len() ==> column_entry_ok(#[trigger] table_map@[id].1@[c])) by {
            let j = choose|j: int| 0 <= j < table_map.ids().len() && table_map.ids()[j] == id;
            assert(table_map@[table_map.ids()[j]] == table_map@[id]);
        }
    }
    Ok(())
}

} // verus!

//! Queries, their definitions, states and results.
use vstd::prelude::*;
use crate::schemas::column::DataColumn;
use crate::db::errors::DbError;
use crate::external::uuid_api::new_v4_id;

verus! {

/// The state of a query.
#[derive(Clone, Copy, Debug, PartialEq, Eq, Structural)]
pub enum QueryStatus {
    CREATED,
    PLANNING,
    RUNNING,
    COMPLETED,
    FAILED,
}

/// The two kinds of query.
#[derive(Clone, Copy, Debug, PartialEq, Eq, Structural)]
pub enum QueryType {
    SelectQuery,
    CopyQuery,
}

/// Tables a query names.
pub trait QueryTableName {
    spec fn spec_table_name(&self) -> Seq<char>;

    fn table_name(&self) -> (r: &str)
        ensures
            r@ == self.spec_table_name(),
    ;
}

/// `SELECT *` from a table.
#[derive(Clone, Debug)]
pub struct SelectQuery {
    table_name: String,
}

impl View for SelectQuery {
    type V = Seq<char>;

    closed spec fn view(&self) -> Seq<char> {
        self.table_name@
    }
}

impl SelectQuery {
    pub fn new(table_name: &str) -> (r: SelectQuery)
        ensures
            r@ == table_name@,
    {
        SelectQuery { table_name: table_name.to_owned() }
    }

    pub fn table_name(&self) -> (r: &str)
        ensures
            r@ == self@,
    {
        self.table_name.as_str()
    }

    pub fn duplicate(&self) -> (r: SelectQuery)
        ensures
            r@ == self@,
    {
        SelectQuery { table_name: self.table_name.clone() }
    }
}

impl QueryTableName for SelectQuery {
    open spec fn spec_table_name(&self) -> Seq<char> {
        self@
    }

    fn table_name(&self) -> (r: &str) {
        self.table_name.as_str()
    }
}

/// What a COPY query asks for.
pub ghost struct CopyQueryView {
    pub src_filepath: Seq<char>,
    pub dest_table_name: Seq<char>,
    pub dest_columns: Option<Seq<Seq<char>>>,
    pub does_csv_contain_header: bool,
}

/// Loading the rows of a CSV file into a table. When the file's columns do
/// not match the table's, `dest_columns` names the table column of each
/// file column.
#[derive(Clone, Debug)]
pub struct CopyQuery {
    src_filepath: String,
    dest_table_name: String,
    dest_columns: Option<Vec<String>>,
    does_csv_contain_header: bool,
}

/// The views of strings.
pub open spec fn string_seq_view(v: Seq<String>) -> Seq<Seq<char>> {
    v.map_values(|s: String| s@)
}

impl View for CopyQuery {
    type V = CopyQueryView;

    closed spec fn view(&self) -> CopyQueryView {
        CopyQueryView {
            src_filepath: self.src_filepath@,
            dest_table_name: self.dest_table_name@,
            dest_columns: match self.dest_columns {
                Some(v) => Some(string_seq_view(v@)),
                None => None,
            },
            does_csv_contain_header: self.does_csv_contain_header,
        }
    }
}

/// A copy of a vector of strings.
pub fn copy_strings(v: &Vec<String>) -> (r: Vec<String>)
    ensures
        string_seq_view(r@) == string_seq_view(v@),
{
    let mut out: Vec<String> = Vec::new();
    let mut i: usize = 0;
    while i < v.len()
        invariant
            i <= v@.len(),
            string_seq_view(out@) == string_seq_view(v@.take(i as int)),
        decreases v@.len() - i,
    {
        let ghost prev = out@;
        let c = v[i].clone();
        assert(c@ == v@[i as int]@);
        out.push(c);
        proof {
            assert(out@ == prev.push(c));
            assert(v@.take(i + 1) =~= v@.take(i as int).push(v@[i as int]));
            assert(string_seq_view(out@) =~= string_seq_view(prev).push(c@));
            assert(string_seq_view(v@.take(i + 1)) =~= string_seq_view(v@.take(i as int)).push(v@[i as int]@));
        }
        i = i + 1;
    }
    assert(v@.take(i as int) =~= v@);
    out
}

impl CopyQuery {
    pub fn new(
        src_filepath: &str,
        dest_table_name: &str,
        dest_columns: Option<Vec<String>>,
        does_csv_contain_header: bool,
    ) -> (r: CopyQuery)
        ensures
            r@ == (CopyQueryView {
                src_filepath: src_filepath@,
                dest_table_name: dest_table_name@,
                dest_columns: match dest_columns {
                    Some(v) => Some(string_seq_view(v@)),
                    None => None,
                },
                does_csv_contain_header,
            }),
    {
        CopyQuery {
            src_filepath: src_filepath.to_owned(),
            dest_table_name: dest_table_name.to_owned(),
            dest_columns,
            does_csv_contain_header,
        }
    }

    pub fn src_filepath(&self) -> (r: &str)
        ensures
            r@ == self@.src_filepath,
    {
        self.src_filepath.as_str()
    }

    pub fn dest_table_name(&self) -> (r: &str)
        ensures
            r@ == self@.dest_table_name,
    {
        self.dest_table_name.as_str()
    }

    pub fn dest_columns(&self) -> (r: Option<&Vec<String>>)
        ensures
            match r {
                Some(v) => self@.dest_columns == Some(string_seq_view(v@)),
                None => self@.dest_columns is None,
            },
    {
        match &self.dest_columns {
            Some(v) => Some(v),
            None => None,
        }
    }

    pub fn csv_contains_header(&self) -> (r: bool)
        ensures
            r == self@.does_csv_contain_header,
    {
        self.does_csv_contain_header
    }

    pub fn duplicate(&self) -> (r: CopyQuery)
        ensures
            r@ == self@,
    {
        let dest_columns = match &self.dest_columns {
            Some(v) => Some(copy_strings(v)),
            None => None,
        };
        CopyQuery {
            src_filepath: self.src_filepath.clone(),
            dest_table_name: self.dest_table_name.clone(),
            dest_columns,
            does_csv_contain_header: self.does_csv_contain_header,
        }
    }
}

impl QueryTableName for CopyQuery {
    open spec fn spec_table_name(&self) -> Seq<char> {
        self@.dest_table_name
    }

    fn table_name(&self) -> (r: &str) {
        self.dest_table_name.as_str()
    }
}

/// The queries a client may submit.
#[derive(Clone, Debug)]
pub enum AllowedQuery {
    SelectQ(SelectQuery),
    CopyQ(CopyQuery),
}

/// What a query asks for.
pub enum AllowedQueryView {
    SelectQ(Seq<char>),
    CopyQ(CopyQueryView),
}

impl View for AllowedQuery {
    type V = AllowedQueryView;

    open spec fn view(&self) -> AllowedQueryView {
        match self {
            AllowedQuery::SelectQ(q) => AllowedQueryView::SelectQ(q@),
            AllowedQuery::CopyQ(q) => AllowedQueryView::CopyQ(q@),
        }
    }
}

/// The table a query is about.
pub open spec fn query_table(q: AllowedQueryView) -> Seq<char> {
    match q {
        AllowedQueryView::SelectQ(t) => t,
        AllowedQueryView::CopyQ(c) => c.dest_table_name,
    }
}

impl AllowedQuery {
    pub fn duplicate(&self) -> (r: AllowedQuery)
        ensures
            r@ == self@,
    {
        match self {
            AllowedQuery::SelectQ(q) => AllowedQuery::SelectQ(q.duplicate()),
            AllowedQuery::CopyQ(q) => AllowedQuery::CopyQ(q.duplicate()),
        }
    }

    /// The kind of the query.
    pub fn query_type(&self) -> (r: QueryType)
        ensures
            r == (if self@ is CopyQ { QueryType::CopyQuery } else { QueryType::SelectQuery }),
    {
        match self {
            AllowedQuery::SelectQ(_) => QueryType::SelectQuery,
            AllowedQuery::CopyQ(_) => QueryType::CopyQuery,
        }
    }
}

impl QueryTableName for AllowedQuery {
    open spec fn spec_table_name(&self) -> Seq<char> {
        query_table(self@)
    }

    fn table_name(&self) -> (r: &str) {
        match self {
            AllowedQuery::SelectQ(q) => q.table_name(),
            AllowedQuery::CopyQ(q) => q.dest_table_name(),
        }
    }
}

/// A query as listed: id and state.
#[derive(Debug)]
pub struct ShallowQuery {
    query_id: u128,
    status: QueryStatus,
}

impl View for ShallowQuery {
    type V = (u128, QueryStatus);

    closed spec fn view(&self) -> (u128, QueryStatus) {
        (self.query_id, self.status)
    }
}

impl ShallowQuery {
    pub fn new(id: u128, status: QueryStatus) -> (r: ShallowQuery)
        ensures
            r@ == (id, status),
    {
        ShallowQuery { query_id: id, status }
    }

    pub fn query_id(&self) -> (r: u128)
        ensures
            r == self@.0,
    {
        self.query_id
    }

    pub fn status(&self) -> (r: QueryStatus)
        ensures
            r == self@.1,
    {
        self.status
    }
}

/// What the database knows of a query.
pub ghost struct QueryView {
    pub query_id: u128,
    pub status: QueryStatus,
    pub is_res_available: bool,
    pub query_definition: AllowedQueryView,
}

/// A submitted query.
#[derive(Clone, Debug)]
pub struct Query {
    query_id: u128,
    status: QueryStatus,
    is_res_available: bool,
    query_definition: AllowedQuery,
}

impl View for Query {
    type V = QueryView;

    closed spec fn view(&self) -> QueryView {
        QueryView {
            query_id: self.query_id,
            status: self.status,
            is_res_available: self.is_res_available,
            query_definition: self.query_definition@,
        }
    }
}

/// A query just submitted under `id`: CREATED, without result.
pub open spec fn fresh_query(id: u128, def: AllowedQueryView) -> QueryView {
    QueryView { query_id: id, status: QueryStatus::CREATED, is_res_available: false, query_definition: def }
}

/// The query after a change of state: a query that completes has a result.
pub open spec fn with_status(q: QueryView, new_status: QueryStatus) -> QueryView {
    QueryView {
        status: new_status,
        is_res_available: if new_status == QueryStatus::COMPLETED { true } else { q.is_res_available },
        ..q
    }
}

impl Query {
    /// A new query with a fresh random id, CREATED, without result.
    pub fn new(query_definition: AllowedQuery) -> (r: Query)
        ensures
            r@ == fresh_query(r@.query_id, query_definition@),
    {
        let query_id = new_v4_id();
        Query::new_with_id(query_definition, query_id)
    }

    /// A new query under `query_id`, CREATED, without result.
    pub fn new_with_id(query_definition: AllowedQuery, query_id: u128) -> (r: Query)
        ensures
            r@ == fresh_query(query_id, query_definition@),
    {
        Query { query_id, status: QueryStatus::CREATED, is_res_available: false, query_definition }
    }

    pub fn id(&self) -> (r: &u128)
        ensures
            *r == self@.query_id,
    {
        &self.query_id
    }

    pub fn status(&self) -> (r: QueryStatus)
        ensures
            r == self@.status,
    {
        self.status
    }

    pub fn is_res_available(&self) -> (r: bool)
        ensures
            r == self@.is_res_available,
    {
        self.is_res_available
    }

    pub fn table_name(&self) -> (r: &str)
        ensures
            r@ == query_table(self@.query_definition),
    {
        self.query_definition.table_name()
    }

    pub fn query_def(&self) -> (r: &AllowedQuery)
        ensures
            r@ == self@.query_definition,
    {
        &self.query_definition
    }

    pub fn update_status(&mut self, new_status: QueryStatus)
        ensures
            final(self)@ == with_status(old(self)@, new_status),
    {
        match new_status {
            QueryStatus::COMPLETED => {
                self.is_res_available = true;
                self.status = new_status;
            },
            _ => {
                self.status = new_status;
            },
        }
    }

    pub fn duplicate(&self) -> (r: Query)
        ensures
            r@ == self@,
    {
        Query {
            query_id: self.query_id,
            status: self.status,
            is_res_available: self.is_res_available,
            query_definition: self.query_definition.duplicate(),
        }
    }
}

/// The body of a request that submits a query.
pub struct ExecuteQueryRequest {
    query_definition: AllowedQuery,
}

impl ExecuteQueryRequest {
    pub fn new(query_definition: AllowedQuery) -> (r: ExecuteQueryRequest)
        ensures
            r.spec_query_definition() == query_definition@,
    {
        ExecuteQueryRequest { query_definition }
    }

    pub closed spec fn spec_query_definition(&self) -> AllowedQueryView {
        self.query_definition@
    }

    pub fn query_definition(&self) -> (r: AllowedQuery)
        ensures
            r@ == self.spec_query_definition(),
    {
        self.query_definition.duplicate()
    }
}

/// The result of a SELECT query: the row count and one batch per column.
#[derive(Clone, Debug)]
pub struct QueryResult {
    row_count: i32,
    columns: Vec<DataColumn>,
}

impl QueryResult {
    pub closed spec fn spec_row_count(&self) -> i32 {
        self.row_count
    }

    pub closed spec fn spec_columns(&self) -> Seq<DataColumn> {
        self.columns@
    }

    /// This result is `orig` cut to at most `row_limit` rows: each column
    /// keeps its first `row_limit` values and the row count is capped at
    /// the limit.
    pub open spec fn is_limited_from(&self, orig: QueryResult, row_limit: usize) -> bool {
        &&& self.spec_row_count() == if (row_limit as int) < orig.spec_row_count() {
            row_limit as i32
        } else {
            orig.spec_row_count()
        }
        &&& self.spec_columns().len() == orig.spec_columns().len()
        &&& forall|i: int| 0 <= i < self.spec_columns().len() ==> #[trigger] self.spec_columns()[i].is_prefix_of(
            orig.spec_columns()[i],
            row_limit as nat,
        )
    }

    pub fn new(row_count: i32, columns: Vec<DataColumn>) -> (r: QueryResult)
        ensures
            r.spec_row_count() == row_count,
            r.spec_columns() == columns@,
    {
        QueryResult { row_count, columns }
    }

    pub fn push_col_data(&mut self, col_data: DataColumn)
        ensures
            final(self).spec_row_count() == old(self).spec_row_count(),
            final(self).spec_columns() == old(self).spec_columns().push(col_data),
    {
        self.columns.push(col_data);
    }

    /// The result cut to at most `row_limit` rows: each column keeps its
    /// first `row_limit` values and the row count is capped at the limit.
    pub fn get_n_rows(&self, row_limit: usize) -> (r: Result<QueryResult, DbError>)
        ensures
            r is Ok,
            r matches Ok(q) ==> q.is_limited_from(*self, row_limit),
    {
        let row_count = if (row_limit as u64) < (self.row_count as i64) as u64 && self.row_count >= 0 {
            row_limit as i32
        } else {
            self.row_count
        };
        let mut columns: Vec<DataColumn> = Vec::new();
        let mut i: usize = 0;
        while i < self.columns.len()
            invariant
                i <= self.columns@.len(),
                columns@.len() == i,
                forall|j: int| 0 <= j < i ==> #[trigger] columns@[j].is_prefix_of(self.columns@[j], row_limit as nat),
            decreases self.columns@.len() - i,
        {
            columns.push(self.columns[i].first_rows(row_limit));
            i = i + 1;
        }
        Ok(QueryResult { row_count, columns })
    }

    pub fn row_count(&self) -> (r: i32)
        ensures
            r == self.spec_row_count(),
    {
        self.row_count
    }

    pub fn columns(&self) -> (r: &Vec<DataColumn>)
        ensures
            r@ == self.spec_columns(),
    {
        &self.columns
    }
}

} // verus!

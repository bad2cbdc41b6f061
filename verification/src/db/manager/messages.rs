//! The messages the database manager, its workers and its clients exchange.
use vstd::prelude::*;
use crate::db::errors::DbError;
use crate::db::storage::metadata::{DbMetadata, TableMetadata, TableMetadataView};
use crate::schemas::error::MultipleProblemsError;
use crate::schemas::query::{AllowedQuery, CopyQuery, CopyQueryView, Query, QueryResult, ShallowQuery};
use crate::schemas::table::{ShallowTable, TableSchema};

verus! {

/// What a worker hands back for a completed query: the result of a SELECT,
/// or, for a COPY, each column's name and the id of its last data file.
#[derive(Debug)]
pub enum WorkerMsgRes {
    SelectRes(QueryResult),
    CopyRes(Vec<(String, u16)>),
}

/// A query a worker completed.
#[derive(Debug)]
pub struct QueryCompletionMsg {
    query_id: u128,
    table_id: u128,
    n_rows: i32,
    res: WorkerMsgRes,
}

impl QueryCompletionMsg {
    pub closed spec fn spec_query_id(&self) -> u128 {
        self.query_id
    }

    pub closed spec fn spec_table_id(&self) -> u128 {
        self.table_id
    }

    pub closed spec fn spec_n_rows(&self) -> i32 {
        self.n_rows
    }

    pub closed spec fn spec_res(&self) -> WorkerMsgRes {
        self.res
    }

    pub fn new(query_id: u128, table_id: u128, n_rows: i32, res: WorkerMsgRes) -> (r: QueryCompletionMsg)
        ensures
            r.spec_query_id() == query_id,
            r.spec_table_id() == table_id,
            r.spec_n_rows() == n_rows,
            r.spec_res() == res,
    {
        QueryCompletionMsg { query_id, table_id, n_rows, res }
    }

    pub fn table_id(&self) -> (r: u128)
        ensures
            r == self.spec_table_id(),
    {
        self.table_id
    }

    pub fn query_id(&self) -> (r: u128)
        ensures
            r == self.spec_query_id(),
    {
        self.query_id
    }

    pub fn n_rows(&self) -> (r: i32)
        ensures
            r == self.spec_n_rows(),
    {
        self.n_rows
    }

    /// The result, consuming the message.
    pub fn res(self) -> (r: WorkerMsgRes)
        ensures
            r == self.spec_res(),
    {
        self.res
    }

    pub fn res_ref(&self) -> (r: &WorkerMsgRes)
        ensures
            *r == self.spec_res(),
    {
        &self.res
    }
}

/// A query that failed, and why.
#[derive(Debug)]
pub struct QueryFailureMsg {
    query_id: u128,
    table_id: u128,
    problems: MultipleProblemsError,
}

impl QueryFailureMsg {
    pub closed spec fn spec_query_id(&self) -> u128 {
        self.query_id
    }

    pub closed spec fn spec_table_id(&self) -> u128 {
        self.table_id
    }

    pub closed spec fn spec_problems(&self) -> Seq<(Seq<char>, Seq<char>)> {
        self.problems@
    }

    pub fn new(query_id: u128, table_id: u128, problems: MultipleProblemsError) -> (r: QueryFailureMsg)
        ensures
            r.spec_query_id() == query_id,
            r.spec_table_id() == table_id,
            r.spec_problems() == problems@,
    {
        QueryFailureMsg { query_id, table_id, problems }
    }

    pub fn table_id(&self) -> (r: u128)
        ensures
            r == self.spec_table_id(),
    {
        self.table_id
    }

    pub fn query_id(&self) -> (r: u128)
        ensures
            r == self.spec_query_id(),
    {
        self.query_id
    }

    /// The problems, consuming the message.
    pub fn problems(self) -> (r: MultipleProblemsError)
        ensures
            r@ == self.spec_problems(),
    {
        self.problems
    }
}

/// The query and table a piece of work is about.
pub trait BaseQueryDataInfo {
    spec fn spec_query_id(&self) -> u128;

    spec fn spec_table_id(&self) -> u128;

    fn query_id(&self) -> (r: u128)
        ensures
            r == self.spec_query_id(),
    ;

    fn table_id(&self) -> (r: u128)
        ensures
            r == self.spec_table_id(),
    ;
}

/// The work for a SELECT: the query and what is known of its table.
#[derive(Debug)]
pub struct SelectQData {
    query_id: u128,
    table_metadata: TableMetadata,
}

impl SelectQData {
    pub closed spec fn spec_table_metadata(&self) -> TableMetadataView {
        self.table_metadata@
    }

    pub fn new(query_id: u128, table_metadata: TableMetadata) -> (r: SelectQData)
        ensures
            r.spec_query_id() == query_id,
            r.spec_table_metadata() == table_metadata@,
    {
        SelectQData { query_id, table_metadata }
    }

    pub fn table_metadata(&self) -> (r: &TableMetadata)
        ensures
            r@ == self.spec_table_metadata(),
    {
        &self.table_metadata
    }
}

impl BaseQueryDataInfo for SelectQData {
    closed spec fn spec_query_id(&self) -> u128 {
        self.query_id
    }

    closed spec fn spec_table_id(&self) -> u128 {
        self.table_metadata@.id
    }

    fn query_id(&self) -> (r: u128) {
        self.query_id
    }

    fn table_id(&self) -> (r: u128) {
        self.table_metadata.table_id()
    }
}

/// The work for a COPY: the query, its definition and what is known of its
/// table.
#[derive(Debug)]
pub struct CopyQData {
    query_id: u128,
    copy_q: CopyQuery,
    table_metadata: TableMetadata,
}

impl CopyQData {
    pub closed spec fn spec_table_metadata(&self) -> TableMetadataView {
        self.table_metadata@
    }

    pub closed spec fn spec_copy_query(&self) -> CopyQueryView {
        self.copy_q@
    }

    pub fn new(query_id: u128, copy_q: CopyQuery, table_metadata: TableMetadata) -> (r: CopyQData)
        ensures
            r.spec_query_id() == query_id,
            r.spec_copy_query() == copy_q@,
            r.spec_table_metadata() == table_metadata@,
    {
        CopyQData { query_id, copy_q, table_metadata }
    }

    pub fn table_metadata(&self) -> (r: &TableMetadata)
        ensures
            r@ == self.spec_table_metadata(),
    {
        &self.table_metadata
    }

    pub fn query_data(&self) -> (r: &CopyQuery)
        ensures
            r@ == self.spec_copy_query(),
    {
        &self.copy_q
    }
}

impl BaseQueryDataInfo for CopyQData {
    closed spec fn spec_query_id(&self) -> u128 {
        self.query_id
    }

    closed spec fn spec_table_id(&self) -> u128 {
        self.table_metadata@.id
    }

    fn query_id(&self) -> (r: u128) {
        self.query_id
    }

    fn table_id(&self) -> (r: u128) {
        self.table_metadata.table_id()
    }
}

/// The work for a query of either kind.
#[derive(Debug)]
pub enum QueryData {
    SelectQ(SelectQData),
    CopyQ(CopyQData),
}

impl QueryData {
    /// What is known of the query's table.
    pub open spec fn spec_table_metadata(&self) -> TableMetadataView {
        match self {
            QueryData::SelectQ(q) => q.spec_table_metadata(),
            QueryData::CopyQ(q) => q.spec_table_metadata(),
        }
    }
}

impl BaseQueryDataInfo for QueryData {
    open spec fn spec_query_id(&self) -> u128 {
        match self {
            QueryData::SelectQ(q) => q.spec_query_id(),
            QueryData::CopyQ(q) => q.spec_query_id(),
        }
    }

    open spec fn spec_table_id(&self) -> u128 {
        match self {
            QueryData::SelectQ(q) => q.spec_table_id(),
            QueryData::CopyQ(q) => q.spec_table_id(),
        }
    }

    fn query_id(&self) -> (r: u128) {
        match self {
            QueryData::SelectQ(q) => q.query_id(),
            QueryData::CopyQ(q) => q.query_id(),
        }
    }

    fn table_id(&self) -> (r: u128) {
        match self {
            QueryData::SelectQ(q) => q.table_id(),
            QueryData::CopyQ(q) => q.table_id(),
        }
    }
}

/// Messages between the database and its query workers.
#[derive(Debug)]
pub enum DbWorkerMsg {
    ExecQuery(usize, QueryData),
    QueryCompleted(usize, QueryCompletionMsg),
    QueryFailed(usize, QueryFailureMsg),
    InternalError(usize, QueryFailureMsg),
    Shutdown,
}

/// Work for the maintenance worker.
#[derive(Debug)]
pub enum DbMaintenanceMsg {
    SaveMetadata(DbMetadata),
    DeleteTable(TableMetadata),
    Shutdown,
}

/// The requests of the database's clients.
#[derive(Debug)]
pub enum DbClientMsg {
    GetTables,
    GetTableDetails(u128),
    DeleteTable(u128),
    PutTable(TableSchema),
    GetQueries,
    GetQueryDetails(u128),
    PostQuery(AllowedQuery),
    /// A query's result: its id, the most rows to give, whether to forget
    /// the result then.
    GetQueryRes(u128, usize, bool),
    GetFailedQuery(u128),
}

/// The answers the database sends its clients.
#[derive(Debug)]
pub enum ResMsg {
    ResTables(Vec<ShallowTable>),
    ResTableDetails(Result<TableSchema, DbError>),
    ResDeleteTable(Result<(), DbError>),
    ResPutTable(Result<u128, DbError>),
    ResQueries(Result<Vec<ShallowQuery>, DbError>),
    ResQueryDetails(Result<Query, DbError>),
    ResPostQuery(Result<u128, DbError>),
    ResQuery(Result<QueryResult, DbError>),
    ResFailedQuery(Result<MultipleProblemsError, DbError>),
}

} // verus!

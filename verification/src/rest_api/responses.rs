//! The answers of the REST interface, with the HTTP status each is sent
//! with.
use vstd::prelude::*;
use crate::rest_api::models::{
    Error, MultipleProblemsError, Query, QueryResultInner, ShallowQuery, ShallowTable, SystemInformation, TableSchema,
};

verus! {

/// The status sent when the handler itself failed.
pub const INTERNAL_SERVER_ERROR: u16 = 500;
/// The status sent for a path and method no operation has.
pub const NOT_FOUND: u16 = 404;
/// The status sent for a body that is missing or does not parse.
pub const BAD_REQUEST: u16 = 400;

#[derive(Debug)]
pub enum GetQueriesResponse {
    /// Array of queries submitted to the system
    ArrayOfQueriesSubmittedToTheSystem(Vec<ShallowQuery>),
}

#[derive(Debug)]
pub enum GetSystemInfoResponse {
    /// Basic information about the system
    BasicInformationAboutTheSystem(SystemInformation),
}

#[derive(Debug)]
pub enum SubmitQueryResponse {
    /// Query has been created successfully
    QueryHasBeenCreatedSuccessfully(String),
    /// Response used when more problems can occur in the system when processing request
    ResponseUsedWhenMoreProblemsCanOccurInTheSystemWhenProcessingRequest(MultipleProblemsError),
}

#[derive(Debug)]
pub enum GetQueryByIdResponse {
    /// Detailed Query description
    DetailedQueryDescription(Query),
    /// Generic error
    GenericError(Error),
}

#[allow(non_camel_case_types)]
#[derive(Debug)]
pub enum GetQueryErrorResponse {
    /// Response used when more problems can occur in the system when processing request
    ResponseUsedWhenMoreProblemsCanOccurInTheSystemWhenProcessingRequest(MultipleProblemsError),
    /// Generic error
    GenericError(Error),
    /// Generic error
    GenericError_2(Error),
}

#[allow(non_camel_case_types)]
#[derive(Debug)]
pub enum GetQueryResultResponse {
    /// Result of selected query
    ResultOfSelectedQuery(Vec<QueryResultInner>),
    /// Generic error
    GenericError(Error),
    /// Generic error
    GenericError_2(Error),
}

#[derive(Debug)]
pub enum CreateTableResponse {
    /// Table created successfully
    TableCreatedSuccessfully(String),
    /// Response used when more problems can occur in the system when processing request
    ResponseUsedWhenMoreProblemsCanOccurInTheSystemWhenProcessingRequest(MultipleProblemsError),
}

#[derive(Debug)]
pub enum GetTablesResponse {
    /// Array of tables in database
    ArrayOfTablesInDatabase(Vec<ShallowTable>),
}

#[derive(Debug)]
pub enum DeleteTableResponse {
    /// Table has been deleted successfully
    TableHasBeenDeletedSuccessfully,
    /// Generic error
    GenericError(Error),
}

#[derive(Debug)]
pub enum GetTableByIdResponse {
    /// Detailed Table description
    DetailedTableDescription(TableSchema),
    /// Generic error
    GenericError(Error),
}

impl GetQueriesResponse {
    /// The list is sent with 200.
    pub fn status_code(&self) -> (r: u16)
        ensures
            r == 200,
    {
        200
    }
}

impl GetSystemInfoResponse {
    /// The information is sent with 200.
    pub fn status_code(&self) -> (r: u16)
        ensures
            r == 200,
    {
        200
    }
}

impl SubmitQueryResponse {
    /// 200 for a created query, 400 for problems.
    pub fn status_code(&self) -> (r: u16)
        ensures
            r == (match self {
                SubmitQueryResponse::QueryHasBeenCreatedSuccessfully(_) => 200u16,
                _ => 400u16,
            }),
    {
        match self {
            SubmitQueryResponse::QueryHasBeenCreatedSuccessfully(_) => 200,
            SubmitQueryResponse::ResponseUsedWhenMoreProblemsCanOccurInTheSystemWhenProcessingRequest(_) => 400,
        }
    }
}

impl GetQueryByIdResponse {
    /// 200 for the query, 404 for an error.
    pub fn status_code(&self) -> (r: u16)
        ensures
            r == (match self {
                GetQueryByIdResponse::DetailedQueryDescription(_) => 200u16,
                _ => 404u16,
            }),
    {
        match self {
            GetQueryByIdResponse::DetailedQueryDescription(_) => 200,
            GetQueryByIdResponse::GenericError(_) => 404,
        }
    }
}

impl GetQueryErrorResponse {
    /// 200 for the problems, 404 for the first kind of error, 400 for the
    /// second.
    pub fn status_code(&self) -> (r: u16)
        ensures
            r == (match self {
                GetQueryErrorResponse::ResponseUsedWhenMoreProblemsCanOccurInTheSystemWhenProcessingRequest(_) => 200u16,
                GetQueryErrorResponse::GenericError(_) => 404u16,
                GetQueryErrorResponse::GenericError_2(_) => 400u16,
            }),
    {
        match self {
            GetQueryErrorResponse::ResponseUsedWhenMoreProblemsCanOccurInTheSystemWhenProcessingRequest(_) => 200,
            GetQueryErrorResponse::GenericError(_) => 404,
            GetQueryErrorResponse::GenericError_2(_) => 400,
        }
    }
}

impl GetQueryResultResponse {
    /// 200 for the result, 404 for the first kind of error, 400 for the
    /// second.
    pub fn status_code(&self) -> (r: u16)
        ensures
            r == (match self {
                GetQueryResultResponse::ResultOfSelectedQuery(_) => 200u16,
                GetQueryResultResponse::GenericError(_) => 404u16,
                GetQueryResultResponse::GenericError_2(_) => 400u16,
            }),
    {
        match self {
            GetQueryResultResponse::ResultOfSelectedQuery(_) => 200,
            GetQueryResultResponse::GenericError(_) => 404,
            GetQueryResultResponse::GenericError_2(_) => 400,
        }
    }
}

impl CreateTableResponse {
    /// 200 for a created table, 400 for problems.
    pub fn status_code(&self) -> (r: u16)
        ensures
            r == (match self {
                CreateTableResponse::TableCreatedSuccessfully(_) => 200u16,
                _ => 400u16,
            }),
    {
        match self {
            CreateTableResponse::TableCreatedSuccessfully(_) => 200,
            CreateTableResponse::ResponseUsedWhenMoreProblemsCanOccurInTheSystemWhenProcessingRequest(_) => 400,
        }
    }
}

impl GetTablesResponse {
    /// The list is sent with 200.
    pub fn status_code(&self) -> (r: u16)
        ensures
            r == 200,
    {
        200
    }
}

impl DeleteTableResponse {
    /// 200 for a deleted table (with no body), 404 for an error.
    pub fn status_code(&self) -> (r: u16)
        ensures
            r == (match self {
                DeleteTableResponse::TableHasBeenDeletedSuccessfully => 200u16,
                _ => 404u16,
            }),
    {
        match self {
            DeleteTableResponse::TableHasBeenDeletedSuccessfully => 200,
            DeleteTableResponse::GenericError(_) => 404,
        }
    }

    /// Whether a JSON body goes with it: all but the deletion.
    pub fn has_body(&self) -> (r: bool)
        ensures
            r == !(self is TableHasBeenDeletedSuccessfully),
    {
        match self {
            DeleteTableResponse::TableHasBeenDeletedSuccessfully => false,
            DeleteTableResponse::GenericError(_) => true,
        }
    }
}

impl GetTableByIdResponse {
    /// 200 for the table, 404 for an error.
    pub fn status_code(&self) -> (r: u16)
        ensures
            r == (match self {
                GetTableByIdResponse::DetailedTableDescription(_) => 200u16,
                _ => 404u16,
            }),
    {
        match self {
            GetTableByIdResponse::DetailedTableDescription(_) => 200,
            GetTableByIdResponse::GenericError(_) => 404,
        }
    }
}

} // verus!

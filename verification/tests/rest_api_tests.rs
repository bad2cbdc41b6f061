use ii_proj_rest_server::rest_api::form::split_commas;
use ii_proj_rest_server::rest_api::models::{
    Column, CopyQuery, Error, ExecuteQueryRequest, GetQueryResultRequest, LogicalColumnType, MultipleProblemsError,
    MultipleProblemsErrorProblemsInner, Query, QueryId, QueryQueryDefiniton, QueryResultInner, QueryStatus,
    SelectQuery, ShallowQuery, ShallowTable, SystemInformation, TableId, TableSchema,
};
use ii_proj_rest_server::rest_api::responses::{
    CreateTableResponse, DeleteTableResponse, GetQueriesResponse, GetQueryByIdResponse, GetQueryErrorResponse,
    GetQueryResultResponse, GetSystemInfoResponse, GetTableByIdResponse, GetTablesResponse, SubmitQueryResponse,
};
use ii_proj_rest_server::rest_api::routing::{ApiRequestParser, HttpMethod};

#[test]
fn commas_split_text_into_pieces() {
    assert_eq!(split_commas(""), vec![String::new()]);
    assert_eq!(split_commas("a,,b"), vec![String::from("a"), String::new(), String::from("b")]);
    assert_eq!(split_commas("ą,"), vec![String::from("ą"), String::new()]);
}

#[test]
fn column_form_text() {
    let c = Column::new(String::from("id"), LogicalColumnType::Int64);
    assert_eq!(c.to_string(), "name,id");
    let back = Column::from_str("name,id,type,VARCHAR,name,other").unwrap();
    assert_eq!(back.name, "id");
    assert_eq!(back.col_type, LogicalColumnType::Varchar);
    assert!(Column::from_str("name,id").is_err());
    assert!(Column::from_str("name,id,type,INT").is_err());
    assert!(Column::from_str("name,id,type,INT64,type,X").is_err());
    assert!(Column::from_str("name,id,type").is_err());
    assert!(Column::from_str("name,id,kind,INT64").is_err());
}

#[test]
fn copy_query_form_text() {
    let q = CopyQuery::new(String::from("f.csv"), String::from("t"));
    assert_eq!(q.does_csv_contain_header, Some(false));
    assert_eq!(q.to_string(), "sourceFilepath,f.csv,destinationTableName,t,doesCsvContainHeader,false");
    let mut q2 = q.clone();
    q2.destination_columns = Some(vec![String::from("a"), String::from("b")]);
    q2.does_csv_contain_header = None;
    assert_eq!(q2.to_string(), "sourceFilepath,f.csv,destinationTableName,t,destinationColumns,a,b");
    let back = CopyQuery::from_str("destinationTableName,t,sourceFilepath,f.csv,doesCsvContainHeader,true").unwrap();
    assert_eq!(back.source_filepath, "f.csv");
    assert_eq!(back.destination_table_name, "t");
    assert_eq!(back.does_csv_contain_header, Some(true));
    assert!(back.destination_columns.is_none());
    assert!(CopyQuery::from_str("sourceFilepath,f.csv").is_err());
    assert!(CopyQuery::from_str("sourceFilepath,f,destinationTableName,t,doesCsvContainHeader,yes").is_err());
    assert!(CopyQuery::from_str("sourceFilepath,f,destinationTableName,t,destinationColumns,a").is_err());
}

#[test]
fn simple_models_form_text() {
    assert_eq!(Error::new(String::from("boom")).to_string(), "message,boom");
    assert_eq!(Error::from_str("message,x").unwrap().message, "x");
    assert!(Error::from_str("").is_err());
    assert_eq!(SelectQuery::new().to_string(), "");
    let s = SelectQuery::from_str("tableName,users").unwrap();
    assert_eq!(s.table_name, Some(String::from("users")));
    assert_eq!(s.to_string(), "tableName,users");
    assert!(SelectQuery::from_str("tableName").is_err());
    let mut r = GetQueryResultRequest::new();
    assert_eq!(r.to_string(), "");
    r.row_limit = Some(-2147483648);
    assert_eq!(r.to_string(), "rowLimit,-2147483648");
    assert_eq!(GetQueryResultRequest::from_str("rowLimit,+12").unwrap().row_limit, Some(12));
    assert!(GetQueryResultRequest::from_str("rowLimit,2147483648").is_err());
    assert!(GetQueryResultRequest::from_str("rowLimit,1x").is_err());
    let p = MultipleProblemsErrorProblemsInner::from_str("context,c,error,e").unwrap();
    assert_eq!(p.error, "e");
    assert_eq!(p.context, Some(String::from("c")));
    assert_eq!(p.to_string(), "error,e,context,c");
    assert_eq!(MultipleProblemsErrorProblemsInner::new(String::from("e")).to_string(), "error,e");
    assert!(MultipleProblemsError::from_str("problems,x").is_err());
    assert_eq!(MultipleProblemsError::new(vec![p]).to_string(), "");
}

#[test]
fn system_information_form_text() {
    let mut s = SystemInformation::new(String::from("1.0"));
    assert_eq!(s.to_string(), "version,1.0");
    s.author = Some(String::from("me"));
    s.interface_version = Some(String::from("2"));
    assert_eq!(s.to_string(), "interfaceVersion,2,version,1.0,author,me");
    let back = SystemInformation::from_str("author,a,version,v").unwrap();
    assert_eq!(back.version, "v");
    assert_eq!(back.author, Some(String::from("a")));
    assert!(back.interface_version.is_none());
    assert!(SystemInformation::from_str("author,a").is_err());
}

#[test]
fn queries_and_tables_form_text() {
    let q = Query::new(String::from("q1"), QueryStatus::Running);
    assert_eq!(q.to_string(), "queryId,q1");
    let back = Query::from_str("queryId,q1,status,COMPLETED,isResultAvailable,true").unwrap();
    assert_eq!(back.status, QueryStatus::Completed);
    assert_eq!(back.is_result_available, Some(true));
    assert!(Query::from_str("queryId,q1,status,DONE").is_err());
    assert!(Query::from_str("queryId,q1").is_err());
    assert!(Query::from_str("queryId,q1,status,FAILED,queryDefiniton,x").is_err());
    let sq = ShallowQuery::from_str("status,PLANNING,queryId,z").unwrap();
    assert_eq!(sq.status, QueryStatus::Planning);
    assert_eq!(sq.query_id, "z");
    assert_eq!(ShallowQuery::new(String::from("z"), QueryStatus::Created).to_string(), "queryId,z");
    let mut t = ShallowTable::new(String::from("users"));
    assert_eq!(t.to_string(), "name,users");
    t.table_id = Some(String::from("id1"));
    assert_eq!(t.to_string(), "tableId,id1,name,users");
    assert_eq!(ShallowTable::from_str("name,n").unwrap().name, "n");
    let ts = TableSchema::new(String::from("t"), vec![Column::new(String::from("c"), LogicalColumnType::Int64)]);
    assert_eq!(ts.to_string(), "name,t");
    assert!(TableSchema::from_str("name,t").is_err());
    let mut res = QueryResultInner::new();
    res.row_count = Some(3);
    assert_eq!(res.to_string(), "rowCount,3");
    assert_eq!(QueryResultInner::from_str("rowCount,7").unwrap().row_count, Some(7));
    assert!(QueryResultInner::from_str("columns,x").is_err());
    let e = ExecuteQueryRequest::new(QueryQueryDefiniton::Select(SelectQuery::new()));
    assert_eq!(e.to_string(), "");
    assert!(ExecuteQueryRequest::from_str("queryDefinition,x").is_err());
    assert!(QueryQueryDefiniton::from_str("x").is_err());
    assert_eq!(QueryId::from_str("abc").unwrap().to_string(), "abc");
    assert_eq!(TableId::from_str("").unwrap().to_string(), "");
}

#[test]
fn enum_names() {
    assert_eq!(LogicalColumnType::Varchar.to_string(), "VARCHAR");
    assert_eq!(LogicalColumnType::from_str("INT64").unwrap(), LogicalColumnType::Int64);
    assert!(LogicalColumnType::from_str("int64").is_err());
    for s in [QueryStatus::Created, QueryStatus::Planning, QueryStatus::Running, QueryStatus::Completed, QueryStatus::Failed] {
        assert_eq!(QueryStatus::from_str(&s.to_string()).unwrap(), s);
    }
}

#[test]
fn operations_by_method_and_path() {
    assert_eq!(ApiRequestParser::parse_operation_id(HttpMethod::Get, "/queries"), Some("GetQueries"));
    assert_eq!(ApiRequestParser::parse_operation_id(HttpMethod::Get, "/system/info"), Some("GetSystemInfo"));
    assert_eq!(ApiRequestParser::parse_operation_id(HttpMethod::Post, "/query"), Some("SubmitQuery"));
    assert_eq!(ApiRequestParser::parse_operation_id(HttpMethod::Get, "/query/42"), Some("GetQueryById"));
    assert_eq!(ApiRequestParser::parse_operation_id(HttpMethod::Get, "/error/42"), Some("GetQueryError"));
    assert_eq!(ApiRequestParser::parse_operation_id(HttpMethod::Get, "/result/42"), Some("GetQueryResult"));
    assert_eq!(ApiRequestParser::parse_operation_id(HttpMethod::Put, "/table"), Some("CreateTable"));
    assert_eq!(ApiRequestParser::parse_operation_id(HttpMethod::Get, "/tables"), Some("GetTables"));
    assert_eq!(ApiRequestParser::parse_operation_id(HttpMethod::Delete, "/table/t1"), Some("DeleteTable"));
    assert_eq!(ApiRequestParser::parse_operation_id(HttpMethod::Get, "/table/t1"), Some("GetTableById"));
    assert_eq!(ApiRequestParser::parse_operation_id(HttpMethod::Post, "/queries"), None);
    assert_eq!(ApiRequestParser::parse_operation_id(HttpMethod::Get, "/query/a/b"), None);
    assert_eq!(ApiRequestParser::parse_operation_id(HttpMethod::Other, "/queries"), None);
}

#[test]
fn status_codes_of_answers() {
    let err = || Error::new(String::from("e"));
    let problems = || MultipleProblemsError::new(vec![]);
    assert_eq!(GetQueriesResponse::ArrayOfQueriesSubmittedToTheSystem(vec![]).status_code(), 200);
    assert_eq!(GetSystemInfoResponse::BasicInformationAboutTheSystem(SystemInformation::new(String::from("1"))).status_code(), 200);
    assert_eq!(SubmitQueryResponse::QueryHasBeenCreatedSuccessfully(String::from("q")).status_code(), 200);
    assert_eq!(SubmitQueryResponse::ResponseUsedWhenMoreProblemsCanOccurInTheSystemWhenProcessingRequest(problems()).status_code(), 400);
    assert_eq!(GetQueryByIdResponse::GenericError(err()).status_code(), 404);
    assert_eq!(GetQueryErrorResponse::ResponseUsedWhenMoreProblemsCanOccurInTheSystemWhenProcessingRequest(problems()).status_code(), 200);
    assert_eq!(GetQueryErrorResponse::GenericError(err()).status_code(), 404);
    assert_eq!(GetQueryErrorResponse::GenericError_2(err()).status_code(), 400);
    assert_eq!(GetQueryResultResponse::ResultOfSelectedQuery(vec![]).status_code(), 200);
    assert_eq!(GetQueryResultResponse::GenericError_2(err()).status_code(), 400);
    assert_eq!(CreateTableResponse::TableCreatedSuccessfully(String::from("t")).status_code(), 200);
    assert_eq!(CreateTableResponse::ResponseUsedWhenMoreProblemsCanOccurInTheSystemWhenProcessingRequest(problems()).status_code(), 400);
    assert_eq!(GetTablesResponse::ArrayOfTablesInDatabase(vec![]).status_code(), 200);
    assert_eq!(DeleteTableResponse::TableHasBeenDeletedSuccessfully.status_code(), 200);
    assert!(!DeleteTableResponse::TableHasBeenDeletedSuccessfully.has_body());
    assert_eq!(DeleteTableResponse::GenericError(err()).status_code(), 404);
    assert_eq!(GetTableByIdResponse::GenericError(err()).status_code(), 404);
}

#[test]
fn the_first_fitting_operation_is_chosen() {
    let mut fits = [false; 10];
    assert_eq!(ApiRequestParser::pick_operation(&fits), None);
    fits[9] = true;
    assert_eq!(ApiRequestParser::pick_operation(&fits), Some("GetTableById"));
    fits[3] = true;
    assert_eq!(ApiRequestParser::pick_operation(&fits), Some("GetQueryById"));
    fits[0] = true;
    assert_eq!(ApiRequestParser::pick_operation(&fits), Some("GetQueries"));
}

#[test]
fn lists_and_choices_are_not_read_from_form_text() {
    assert_eq!(MultipleProblemsError::from_str("problems,x").unwrap_err(), "Parsing a container in this style is not supported in MultipleProblemsError");
    assert_eq!(MultipleProblemsError::from_str("problems").unwrap_err(), "Missing value while parsing MultipleProblemsError");
    assert_eq!(MultipleProblemsError::from_str("other,x").unwrap_err(), "Unexpected key while parsing MultipleProblemsError");
    assert_eq!(QueryQueryDefiniton::from_str("anything").unwrap_err(), "Parsing QueryQueryDefiniton is not supported");
    assert_eq!(ExecuteQueryRequest::from_str("queryDefinition,x").unwrap_err(), "Parsing QueryQueryDefiniton is not supported");
    assert_eq!(ExecuteQueryRequest::from_str("").unwrap_err(), "Missing value while parsing ExecuteQueryRequest");
    assert_eq!(ExecuteQueryRequest::from_str("k,v").unwrap_err(), "Unexpected key while parsing ExecuteQueryRequest");
}

#[test]
fn a_table_schema_is_not_read_from_form_text() {
    assert_eq!(TableSchema::from_str("name,t").unwrap_err(), "columns missing in TableSchema");
    assert_eq!(TableSchema::from_str("name,t,columns,x").unwrap_err(), "Parsing a container in this style is not supported in TableSchema");
    assert_eq!(TableSchema::from_str("name,t,size").unwrap_err(), "Missing value while parsing TableSchema");
    assert_eq!(TableSchema::from_str("size,3").unwrap_err(), "Unexpected key while parsing TableSchema");
    assert_eq!(TableSchema::from_str("").unwrap_err(), "Missing value while parsing TableSchema");
}

#[test]
fn a_request_that_fits_no_operation_is_405_on_a_known_path_else_404() {
    assert_eq!(ApiRequestParser::parse_operation_id(HttpMethod::Post, "/tables"), None);
    assert_eq!(ApiRequestParser::unrouted_status("/tables"), 405);
    assert_eq!(ApiRequestParser::unrouted_status("/query/abc"), 405);
    assert_eq!(ApiRequestParser::unrouted_status("/nowhere"), 404);
}

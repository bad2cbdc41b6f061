use ii_proj_rest_server::db::constants::LogicalColType;
use ii_proj_rest_server::db::db_engine::{handle_client_cmd, handle_worker_cmd, BreakMsg};
use ii_proj_rest_server::db::errors::DbError;
use ii_proj_rest_server::db::manager::db_manager::{DbManager, ManagerAction};
use ii_proj_rest_server::db::manager::messages::{
    BaseQueryDataInfo, DbClientMsg, DbMaintenanceMsg, DbWorkerMsg, QueryCompletionMsg, QueryData, QueryFailureMsg, ResMsg, WorkerMsgRes,
};
use ii_proj_rest_server::db::manager::query_worker::{handle_select_end, handle_select_start};
use ii_proj_rest_server::db::storage::metadata::{DbMetadata, TableMetadata};
use ii_proj_rest_server::schemas::column::{Column, DataColumn, Int64Column, VarcharColumn};
use ii_proj_rest_server::schemas::error::{Error, MultipleProblemsError, Problem};
use ii_proj_rest_server::schemas::query::{AllowedQuery, QueryResult, QueryStatus, SelectQuery};
use ii_proj_rest_server::schemas::table::TableSchema;

fn empty_manager() -> DbManager {
    let meta = DbMetadata::new_empty("./metadata", "./db/").unwrap();
    DbManager::new(meta, "./db/", "./metadata", 2)
}

fn put_table(m: &mut DbManager, name: &str) -> u128 {
    let mut schema = TableSchema::new(name);
    schema.push_col(&Column::new_int("a"));
    match handle_client_cmd(DbClientMsg::PutTable(schema), m) {
        ResMsg::ResPutTable(Ok(id)) => id,
        other => panic!("unexpected answer {other:?}"),
    }
}

fn post_select(m: &mut DbManager, table: &str) -> Result<u128, DbError> {
    match handle_client_cmd(DbClientMsg::PostQuery(AllowedQuery::SelectQ(SelectQuery::new(table))), m) {
        ResMsg::ResPostQuery(r) => r,
        other => panic!("unexpected answer {other:?}"),
    }
}

fn status_of(m: &mut DbManager, q: u128) -> QueryStatus {
    match handle_client_cmd(DbClientMsg::GetQueryDetails(q), m) {
        ResMsg::ResQueryDetails(Ok(q)) => q.status(),
        other => panic!("unexpected answer {other:?}"),
    }
}

/// The worker the manager sent the query to.
fn worker_of(m: &mut DbManager, q: u128) -> usize {
    let actions = m.take_actions();
    let mut found = None;
    for a in actions {
        if let ManagerAction::ToWorker(w, DbWorkerMsg::ExecQuery(w2, QueryData::SelectQ(s))) = a {
            assert_eq!(w, w2);
            assert_eq!(s.query_id(), q);
            found = Some(w);
        }
    }
    found.expect("no worker got the query")
}

#[test]
fn tables_are_put_listed_described_and_deleted() {
    let mut m = empty_manager();
    match handle_client_cmd(DbClientMsg::GetTables, &mut m) {
        ResMsg::ResTables(t) => assert!(t.is_empty()),
        other => panic!("unexpected answer {other:?}"),
    }
    let id = put_table(&mut m, "t");
    match handle_client_cmd(DbClientMsg::GetTables, &mut m) {
        ResMsg::ResTables(t) => {
            assert_eq!(t.len(), 1);
            assert_eq!(t[0].table_id(), id);
            assert_eq!(t[0].name(), "t");
        },
        other => panic!("unexpected answer {other:?}"),
    }
    match handle_client_cmd(DbClientMsg::GetTableDetails(id), &mut m) {
        ResMsg::ResTableDetails(Ok(s)) => {
            assert_eq!(s.name(), "t");
            assert_eq!(s.columns().len(), 1);
            assert_eq!(s.columns()[0].c_name(), "a");
        },
        other => panic!("unexpected answer {other:?}"),
    }
    match handle_client_cmd(DbClientMsg::DeleteTable(id), &mut m) {
        ResMsg::ResDeleteTable(Ok(())) => {},
        other => panic!("unexpected answer {other:?}"),
    }
    let actions = m.take_actions();
    assert!(actions.iter().any(|a| matches!(a, ManagerAction::ToMaintenance(DbMaintenanceMsg::DeleteTable(_)))));
    match handle_client_cmd(DbClientMsg::GetTableDetails(id), &mut m) {
        ResMsg::ResTableDetails(Err(DbError::NotFound(_))) => {},
        other => panic!("unexpected answer {other:?}"),
    }
    match handle_client_cmd(DbClientMsg::DeleteTable(id), &mut m) {
        ResMsg::ResDeleteTable(Err(DbError::NotFound(_))) => {},
        other => panic!("unexpected answer {other:?}"),
    }
}

#[test]
fn a_second_table_of_the_same_name_is_refused() {
    let mut m = empty_manager();
    let first = put_table(&mut m, "t");
    let mut schema = TableSchema::new("t");
    schema.push_col(&Column::new_int("b"));
    match handle_client_cmd(DbClientMsg::PutTable(schema), &mut m) {
        ResMsg::ResPutTable(Err(DbError::InvalidName(n))) => assert_eq!(n, "t"),
        other => panic!("unexpected answer {other:?}"),
    }
    match handle_client_cmd(DbClientMsg::GetTables, &mut m) {
        ResMsg::ResTables(t) => {
            assert_eq!(t.len(), 1);
            assert_eq!(t[0].table_id(), first);
        },
        other => panic!("unexpected answer {other:?}"),
    }
}

#[test]
fn a_select_runs_completes_and_gives_its_result_once() {
    let mut m = empty_manager();
    let table = put_table(&mut m, "t");
    let q = post_select(&mut m, "t").unwrap();
    assert_eq!(status_of(&mut m, q), QueryStatus::RUNNING);
    let w = worker_of(&mut m, q);

    let res = QueryResult::new(2, vec![DataColumn::Int64(Int64Column::new(vec![7, 8]))]);
    let done = QueryCompletionMsg::new(q, table, 2, WorkerMsgRes::SelectRes(res));
    assert_eq!(handle_worker_cmd(DbWorkerMsg::QueryCompleted(w, done), &mut m), BreakMsg::NoMsg);
    assert_eq!(status_of(&mut m, q), QueryStatus::COMPLETED);

    match handle_client_cmd(DbClientMsg::GetQueries, &mut m) {
        ResMsg::ResQueries(Ok(qs)) => {
            assert_eq!(qs.len(), 1);
            assert_eq!(qs[0].query_id(), q);
            assert_eq!(qs[0].status(), QueryStatus::COMPLETED);
        },
        other => panic!("unexpected answer {other:?}"),
    }
    match handle_client_cmd(DbClientMsg::get_query_res(q, 1, true).unwrap(), &mut m) {
        ResMsg::ResQuery(Ok(r)) => {
            assert_eq!(r.row_count(), 1);
            match &r.columns()[0] {
                DataColumn::Int64(c) => assert_eq!(c.values(), &vec![7]),
                other => panic!("unexpected column {other:?}"),
            }
        },
        other => panic!("unexpected answer {other:?}"),
    }
    match handle_client_cmd(DbClientMsg::GetQueryRes(q, 1, false), &mut m) {
        ResMsg::ResQuery(Err(DbError::NotFound(_))) => {},
        other => panic!("unexpected answer {other:?}"),
    }
    match handle_client_cmd(DbClientMsg::GetFailedQuery(q), &mut m) {
        ResMsg::ResFailedQuery(Err(DbError::NotFound(_))) => {},
        other => panic!("unexpected answer {other:?}"),
    }
}

#[test]
fn a_failed_query_keeps_its_problems() {
    let mut m = empty_manager();
    let table = put_table(&mut m, "t");
    let q = post_select(&mut m, "t").unwrap();
    let w = worker_of(&mut m, q);
    let problems = MultipleProblemsError::new(vec![Problem::new(&Error::new("bad"), "reading")]);
    let failed = QueryFailureMsg::new(q, table, problems);
    assert_eq!(handle_worker_cmd(DbWorkerMsg::QueryFailed(w, failed), &mut m), BreakMsg::NoMsg);
    assert_eq!(status_of(&mut m, q), QueryStatus::FAILED);
    match handle_client_cmd(DbClientMsg::GetFailedQuery(q), &mut m) {
        ResMsg::ResFailedQuery(Ok(p)) => {
            assert_eq!(p.problems().len(), 1);
            assert_eq!(p.problems()[0].error().message(), "bad");
            assert_eq!(p.problems()[0].context(), "reading");
        },
        other => panic!("unexpected answer {other:?}"),
    }
}

#[test]
fn a_query_on_an_unknown_table_is_refused_and_kept_as_failed() {
    let mut m = empty_manager();
    match post_select(&mut m, "nope") {
        Err(DbError::NotFound(_)) => {},
        other => panic!("unexpected answer {other:?}"),
    }
    match handle_client_cmd(DbClientMsg::GetQueries, &mut m) {
        ResMsg::ResQueries(Ok(qs)) => {
            assert_eq!(qs.len(), 1);
            assert_eq!(qs[0].status(), QueryStatus::FAILED);
        },
        other => panic!("unexpected answer {other:?}"),
    }
}

#[test]
fn a_marked_table_is_deleted_when_its_last_query_ends() {
    let mut m = empty_manager();
    let table = put_table(&mut m, "t");
    let q = post_select(&mut m, "t").unwrap();
    let w = worker_of(&mut m, q);
    match handle_client_cmd(DbClientMsg::DeleteTable(table), &mut m) {
        ResMsg::ResDeleteTable(Ok(())) => {},
        other => panic!("unexpected answer {other:?}"),
    }
    assert!(post_select(&mut m, "t").is_err());
    let res = QueryResult::new(0, vec![]);
    let done = QueryCompletionMsg::new(q, table, 0, WorkerMsgRes::SelectRes(res));
    assert_eq!(handle_worker_cmd(DbWorkerMsg::QueryCompleted(w, done), &mut m), BreakMsg::NoMsg);
    let actions = m.take_actions();
    assert!(actions.iter().any(|a| matches!(a, ManagerAction::ToMaintenance(DbMaintenanceMsg::DeleteTable(_)))));
    match handle_client_cmd(DbClientMsg::GetTables, &mut m) {
        ResMsg::ResTables(t) => assert!(t.is_empty()),
        other => panic!("unexpected answer {other:?}"),
    }
}

#[test]
fn reports_the_manager_cannot_record_stop_the_database() {
    let mut m = empty_manager();
    let unknown = QueryCompletionMsg::new(1, 2, 0, WorkerMsgRes::SelectRes(QueryResult::new(0, vec![])));
    assert_eq!(handle_worker_cmd(DbWorkerMsg::QueryCompleted(0, unknown), &mut m), BreakMsg::DoBreak);
    let internal = QueryFailureMsg::new(1, 2, MultipleProblemsError::new(vec![]));
    assert_eq!(handle_worker_cmd(DbWorkerMsg::InternalError(0, internal), &mut m), BreakMsg::DoBreak);
    assert_eq!(handle_worker_cmd(DbWorkerMsg::Shutdown, &mut m), BreakMsg::DoBreak);
}

#[test]
fn a_negative_row_limit_is_refused() {
    assert_eq!(
        DbClientMsg::get_query_res(3, -5, false).unwrap_err(),
        "We do not allow row limit to be negative: -5"
    );
    assert!(matches!(DbClientMsg::get_query_res(3, 0, true), Ok(DbClientMsg::GetQueryRes(3, 0, true))));
}

const USERS_TABLE_NAME: &str = "users";
const ORDERS_TABLE_NAME: &str = "orders";
const NBR_OF_DB_WORKERS: usize = 2;

fn users_table_schema() -> TableSchema {
    let mut users_schema = TableSchema::new(USERS_TABLE_NAME);
    users_schema.push_col(&Column::new("id", &LogicalColType::INT64));
    users_schema.push_col(&Column::new("username", &LogicalColType::VARCHAR));
    users_schema.push_col(&Column::new("age", &LogicalColType::INT64));
    users_schema
}

fn orders_table_schema() -> TableSchema {
    let mut orders_schema = TableSchema::new(ORDERS_TABLE_NAME);
    orders_schema.push_col(&Column::new("order_id", &LogicalColType::INT64));
    orders_schema.push_col(&Column::new("product_name", &LogicalColType::VARCHAR));
    orders_schema.push_col(&Column::new("price", &LogicalColType::INT64));
    orders_schema
}

fn setup_test_db_manager(nbr_of_db_workers: usize) -> DbManager {
    let meta = DbMetadata::new_empty("./metadata", "./db_data").unwrap();
    let mut db_manager = DbManager::new(meta, "./db_data", "./metadata", nbr_of_db_workers);
    db_manager.put_table(&users_table_schema()).expect("Failed to create users table");
    db_manager.put_table(&orders_table_schema()).expect("Failed to create orders table");
    db_manager
}

#[test]
fn get_tables_correct() {
    let db_manager = setup_test_db_manager(2);
    let tables_vec = db_manager.get_tables();
    assert_eq!(tables_vec.len(), 2);
    let table_names: Vec<String> = tables_vec.iter().map(|t| t.name().to_string()).collect();
    assert!(table_names.contains(&USERS_TABLE_NAME.to_string()));
    assert!(table_names.contains(&ORDERS_TABLE_NAME.to_string()));
}

#[test]
fn post_query_select_success() {
    let mut db_manager = setup_test_db_manager(NBR_OF_DB_WORKERS);
    let select_query = AllowedQuery::SelectQ(SelectQuery::new(USERS_TABLE_NAME));
    let result = db_manager.post_query(select_query);
    assert!(result.is_ok());
    let query_id = result.unwrap();

    let query_details = db_manager.get_query_details(&query_id);
    assert!(query_details.is_ok());
    let query = query_details.unwrap();
    assert!(matches!(query.status(), QueryStatus::CREATED | QueryStatus::RUNNING | QueryStatus::COMPLETED));

    // The worker that got the query answers it: the files of the new table
    // were never written, so every column reads back empty.
    let mut response = None;
    for action in db_manager.take_actions() {
        if let ManagerAction::ToWorker(_, DbWorkerMsg::ExecQuery(worker_id, QueryData::SelectQ(s))) = action {
            response = match handle_select_start(worker_id, &s) {
                Some(msg) => Some(msg),
                None => {
                    let table = s.table_metadata();
                    let mut q_res = QueryResult::new(0, Vec::new());
                    let mut row_count: Option<i32> = None;
                    let mut read = Ok(());
                    for col in table.columns() {
                        let empty = match col.c_type() {
                            LogicalColType::INT64 => DataColumn::Int64(Int64Column::new(Vec::new())),
                            LogicalColType::VARCHAR => DataColumn::Varchar(VarcharColumn::new(Vec::new())),
                        };
                        if read.is_ok() {
                            read = TableMetadata::check_row_count(&mut row_count, empty.len(), table.table_name());
                        }
                        q_res.push_col_data(empty);
                    }
                    let result = read.and_then(|_| TableMetadata::finish_read_table(row_count, q_res));
                    Some(handle_select_end(worker_id, s.query_id(), s.table_id(), table.table_name(), result))
                },
            };
        }
    }
    assert!(response.is_some(), "Expected worker response, got None");
    match response.unwrap() {
        DbWorkerMsg::QueryCompleted(worker_id, completion_msg) => {
            assert_eq!(completion_msg.query_id(), query_id);
            assert!(worker_id < 2, "Worker ID should be less than number of workers");
        },
        DbWorkerMsg::QueryFailed(worker_id, failure_msg) => {
            panic!("Query unexpectedly failed: worker_id={}, query_id={:?}", worker_id, failure_msg.query_id());
        },
        _ => panic!("Unexpected worker message type"),
    }
}

#[test]
fn a_query_posted_with_an_id_waits_under_it_without_a_free_worker() {
    let meta = DbMetadata::new_empty("./metadata", "./db/").unwrap();
    let mut m = DbManager::new(meta, "./db/", "./metadata", 0);
    put_table(&mut m, "t");
    let q = AllowedQuery::SelectQ(SelectQuery::new("t"));
    assert_eq!(m.post_query_with_id(q, 42).unwrap(), 42);
    assert_eq!(status_of(&mut m, 42), QueryStatus::CREATED);
    let again = AllowedQuery::SelectQ(SelectQuery::new("t"));
    assert!(matches!(m.post_query_with_id(again, 42), Err(DbError::Other(_))));
    let unknown = AllowedQuery::SelectQ(SelectQuery::new("nope"));
    assert!(matches!(m.post_query_with_id(unknown, 7), Err(DbError::NotFound(_))));
    assert_eq!(status_of(&mut m, 7), QueryStatus::FAILED);
}

#[test]
fn a_posted_select_goes_to_the_first_free_worker() {
    let mut m = empty_manager();
    put_table(&mut m, "t");
    let q = post_select(&mut m, "t").unwrap();
    assert_eq!(status_of(&mut m, q), QueryStatus::RUNNING);
    let actions = m.take_actions();
    assert_eq!(actions.len(), 1);
    match &actions[0] {
        ManagerAction::ToWorker(0, DbWorkerMsg::ExecQuery(0, QueryData::SelectQ(s))) => assert_eq!(s.query_id(), q),
        other => panic!("unexpected action {other:?}"),
    }
}

#[test]
fn a_waiting_query_runs_when_a_worker_reports_back() {
    let meta = DbMetadata::new_empty("./metadata", "./db/").unwrap();
    let mut m = DbManager::new(meta, "./db/", "./metadata", 1);
    let table = put_table(&mut m, "t");
    let first = post_select(&mut m, "t").unwrap();
    assert_eq!(worker_of(&mut m, first), 0);
    let second = post_select(&mut m, "t").unwrap();
    assert_eq!(status_of(&mut m, second), QueryStatus::CREATED);
    assert_eq!(m.take_actions().len(), 0);

    let res = QueryResult::new(0, vec![DataColumn::Int64(Int64Column::new(vec![]))]);
    let done = QueryCompletionMsg::new(first, table, 0, WorkerMsgRes::SelectRes(res));
    assert_eq!(handle_worker_cmd(DbWorkerMsg::QueryCompleted(0, done), &mut m), BreakMsg::NoMsg);
    assert_eq!(status_of(&mut m, first), QueryStatus::COMPLETED);
    assert_eq!(status_of(&mut m, second), QueryStatus::RUNNING);
    assert_eq!(worker_of(&mut m, second), 0);

    let problems = MultipleProblemsError::new(vec![]);
    let failed = QueryFailureMsg::new(second, table, problems);
    assert_eq!(handle_worker_cmd(DbWorkerMsg::QueryFailed(0, failed), &mut m), BreakMsg::NoMsg);
    assert_eq!(status_of(&mut m, second), QueryStatus::FAILED);
    assert_eq!(m.take_actions().len(), 0);
}

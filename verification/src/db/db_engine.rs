//! What the database does with each message it receives: a client's request
//! is answered, a worker's report is recorded, and some reports stop the
//! database.
use vstd::prelude::*;
use crate::db::errors::DbError;
use crate::db::manager::db_manager::{
    after_result_read, after_save_check, completion_recordable, completion_recorded, delete_outcome, failure_recordable,
    failure_recorded, listed_queries, post_outcome, completed_state, failed_state, serve_ok, save_check_actions, DbManager,
};
use crate::db::manager::messages::{DbClientMsg, DbWorkerMsg, ResMsg};
use crate::db::storage::metadata::{after_put, schema_cols_ok, schema_of, table_alive, visible_tables};
use crate::schemas::query::{query_table, ShallowQuery};
use crate::schemas::table::ShallowTable;
use crate::rest_api::models::{int32_string, int32_text};
use crate::external::std_text::string_push_str;

verus! {

/// Whether the database stops after a message.
#[derive(Debug, PartialEq, Eq, Structural)]
pub enum BreakMsg {
    DoBreak,
    NoMsg,
}

/// What a client may ask of `m`: one more table needs room for it in the
/// metadata, one more query room in its table's count of queries.
pub open spec fn client_msg_allowed(m: &DbManager, msg: &DbClientMsg) -> bool {
    &&& m.wf()
    &&& (msg matches DbClientMsg::PutTable(_) ==> m@.meta.table_count < u16::MAX && m@.meta.changes < u16::MAX)
    &&& (msg matches DbClientMsg::PostQuery(q) ==> (m@.meta.names.contains_key(query_table(q@))
        ==> m@.meta.states[m@.meta.names[query_table(q@)]].n_queries_operating_on_table < u16::MAX))
}

/// Answers a client's request with the manager's answer to it, in the
/// matching variant of [`ResMsg`].
pub fn handle_client_cmd(client_msg: DbClientMsg, db_manager: &mut DbManager) -> (r: ResMsg)
    requires
        client_msg_allowed(old(db_manager), &client_msg),
    ensures
        final(db_manager).wf(),
        ({
            let o = old(db_manager)@;
            let n = final(db_manager)@;
            match client_msg {
                DbClientMsg::GetTables => r matches ResMsg::ResTables(v) && v@.map_values(|t: ShallowTable| t@)
                    == visible_tables(o.meta) && n == o,
                DbClientMsg::GetTableDetails(id) => r matches ResMsg::ResTableDetails(res) && n == o && (res is Ok
                    <==> table_alive(o.meta, id)) && (res matches Ok(s) ==> s@ == schema_of(o.meta.tables[id])),
                DbClientMsg::DeleteTable(id) => r matches ResMsg::ResDeleteTable(res) && delete_outcome(o, n, id, res),
                DbClientMsg::PutTable(schema) => r matches ResMsg::ResPutTable(res) && (res is Err ==> n == o) && (
                !schema_cols_ok(schema@.1) ==> res is Err) && (o.meta.names.contains_key(schema@.0) ==> (res matches Err(
                    DbError::InvalidName(nm),
                ) && nm@ == schema@.0)) && (res matches Ok(id) ==> !o.meta.tables.contains_key(id)
                    && !o.meta.names.contains_key(schema@.0) && n.meta == after_save_check(after_put(o.meta, schema@, id))
                    && save_check_actions(after_put(o.meta, schema@, id), o.actions, n.actions)),
                DbClientMsg::GetQueries => r matches ResMsg::ResQueries(res) && n == o && (res matches Ok(v)
                    && v@.map_values(|q: ShallowQuery| q@) == listed_queries(o.store)),
                DbClientMsg::GetQueryDetails(id) => r matches ResMsg::ResQueryDetails(res) && n == o && (res is Ok
                    <==> o.store.queries.contains_key(id)) && (res matches Ok(q) ==> q@ == o.store.queries[id]),
                DbClientMsg::PostQuery(q) => r matches ResMsg::ResPostQuery(res) && exists|id: u128|
                    #[trigger] post_outcome(o, n, q@, id, res),
                DbClientMsg::GetQueryRes(id, row_limit, do_flush) => r matches ResMsg::ResQuery(res) && (res is Ok
                    <==> o.store.results.contains_key(id)) && (res is Err ==> n == o) && (res matches Ok(q)
                    ==> q.is_limited_from(o.store.results[id], row_limit) && n == after_result_read(o, id, do_flush)),
                DbClientMsg::GetFailedQuery(id) => r matches ResMsg::ResFailedQuery(res) && n == o && (res is Ok
                    <==> o.store.failed.contains_key(id)) && (res matches Ok(e) ==> e@ == o.store.failed[id]),
            }
        }),
{
    match client_msg {
        DbClientMsg::GetTables => ResMsg::ResTables(db_manager.get_tables()),
        DbClientMsg::GetTableDetails(table_id) => ResMsg::ResTableDetails(db_manager.get_table_details(&table_id)),
        DbClientMsg::DeleteTable(table_id) => ResMsg::ResDeleteTable(db_manager.delete_table(&table_id)),
        DbClientMsg::PutTable(table_schema) => {
            ResMsg::ResPutTable(db_manager.put_table(&table_schema))
        },
        DbClientMsg::GetQueries => ResMsg::ResQueries(db_manager.get_queries()),
        DbClientMsg::GetQueryDetails(query_id) => ResMsg::ResQueryDetails(db_manager.get_query_details(&query_id)),
        DbClientMsg::PostQuery(q) => ResMsg::ResPostQuery(db_manager.post_query(q)),
        DbClientMsg::GetQueryRes(query_id, row_count, do_flush) => ResMsg::ResQuery(
            db_manager.get_query_result(&query_id, row_count, do_flush),
        ),
        DbClientMsg::GetFailedQuery(query_id) => ResMsg::ResFailedQuery(db_manager.get_query_failed(&query_id)),
    }
}

/// The message that refuses a negative row limit.
pub open spec fn negative_limit_text(row_limit: i32) -> Seq<char> {
    "We do not allow row limit to be negative: "@ + int32_text(row_limit)
}

impl DbClientMsg {
    /// The request for the result of query `query_id`, at most `row_limit`
    /// rows, forgotten then if `flush_result`; a negative limit is refused
    /// with a message that names it.
    pub fn get_query_res(query_id: u128, row_limit: i32, flush_result: bool) -> (r: Result<DbClientMsg, String>)
        ensures
            row_limit >= 0 ==> r == Ok::<DbClientMsg, String>(
                DbClientMsg::GetQueryRes(query_id, row_limit as usize, flush_result),
            ),
            row_limit < 0 ==> (r matches Err(m) && m@ == negative_limit_text(row_limit)),
    {
        if row_limit < 0 {
            let mut m = "We do not allow row limit to be negative: ".to_owned();
            let n = int32_string(row_limit);
            string_push_str(&mut m, n.as_str());
            proof {
                reveal_strlit("We do not allow row limit to be negative: ");
            }
            return Err(m);
        }
        Ok(DbClientMsg::GetQueryRes(query_id, row_limit as usize, flush_result))
    }
}

/// Records a worker's report: a completed or a failed query. A report the
/// manager cannot record, an internal error of a worker, or any other
/// message stops the database.
pub fn handle_worker_cmd(worker_msg: DbWorkerMsg, db_manager: &mut DbManager) -> (r: BreakMsg)
    requires
        old(db_manager).wf(),
    ensures
        final(db_manager).wf(),
        match worker_msg {
            DbWorkerMsg::QueryCompleted(worker_id, q_msg) => {
                &&& r is NoMsg ==> completion_recorded(old(db_manager)@, final(db_manager)@, worker_id, q_msg)
                &&& !completion_recordable(old(db_manager)@, worker_id, q_msg) ==> r is DoBreak
                &&& completion_recordable(old(db_manager)@, worker_id, q_msg) ==> (r is NoMsg <==> serve_ok(
                    completed_state(old(db_manager)@, worker_id, q_msg),
                ))
            },
            DbWorkerMsg::QueryFailed(worker_id, q_msg) => {
                &&& r is NoMsg ==> failure_recorded(old(db_manager)@, final(db_manager)@, worker_id, q_msg)
                &&& !failure_recordable(old(db_manager)@, worker_id, q_msg) ==> r is DoBreak
                &&& failure_recordable(old(db_manager)@, worker_id, q_msg) ==> (r is NoMsg <==> serve_ok(
                    failed_state(old(db_manager)@, worker_id, q_msg),
                ))
            },
            _ => r is DoBreak && final(db_manager)@ == old(db_manager)@,
        },
{
    match worker_msg {
        DbWorkerMsg::QueryCompleted(worker_id, success_msg) => match db_manager.handle_completed_query(worker_id, success_msg) {
            Err(_) => BreakMsg::DoBreak,
            Ok(()) => BreakMsg::NoMsg,
        },
        DbWorkerMsg::QueryFailed(worker_id, fail_msg) => match db_manager.handle_failed_query(worker_id, fail_msg) {
            Err(_) => BreakMsg::DoBreak,
            Ok(()) => BreakMsg::NoMsg,
        },
        _ => BreakMsg::DoBreak,
    }
}

} // verus!

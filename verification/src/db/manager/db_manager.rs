//! The decisions of the database manager: it keeps the metadata and the
//! queries, hands queries to free workers, and records what they report.
//! What it sends to workers and to the maintenance worker is queued as
//! actions for the task that runs the manager to deliver.
use vstd::prelude::*;
use crate::db::constants::MAX_ALLOWED_METADATA_CHANGES;
use crate::db::errors::DbError;
use crate::external::uuid_api::new_v4_id;
use crate::db::manager::messages::{DbMaintenanceMsg, DbWorkerMsg, QueryCompletionMsg, QueryFailureMsg, WorkerMsgRes};
use crate::db::manager::query_store::{kind_of, QueryStore, QueryStoreView};
use crate::db::manager::workers_pool::{any_free, WorkersPool};
use crate::db::storage::metadata::{
    CopyFlag, name_id_pairs, with_one_more_query, with_one_less_query, with_copy_flag, with_table_columns, columns_with_files,
    after_delete, after_put, query_authorized, schema_cols_ok, table_alive, visible_tables, with_state, DbMetadata,
    DbMetadataView, DeleteFlag, TableMetadata, TableState,
};
use crate::schemas::error::MultipleProblemsError;
use crate::schemas::query::{
    fresh_query, query_table, with_status, AllowedQuery, AllowedQueryView, Query, QueryResult, QueryStatus, QueryTableName,
    QueryType, ShallowQuery,
};
use crate::schemas::table::{ShallowTable, TableSchema};

verus! {

/// Where the database keeps its files.
#[derive(Debug)]
pub struct DbPaths {
    metadata_file_path: String,
    data_dir_path: String,
}

impl View for DbPaths {
    type V = (Seq<char>, Seq<char>);

    closed spec fn view(&self) -> (Seq<char>, Seq<char>) {
        (self.metadata_file_path@, self.data_dir_path@)
    }
}

impl DbPaths {
    pub fn new(metadata_file_path: &str, data_dir_path: &str) -> (r: DbPaths)
        ensures
            r@ == (metadata_file_path@, data_dir_path@),
    {
        DbPaths { metadata_file_path: metadata_file_path.to_owned(), data_dir_path: data_dir_path.to_owned() }
    }
}

/// Something the manager has decided to send.
#[derive(Debug)]
pub enum ManagerAction {
    /// A message for query worker number `.0`.
    ToWorker(usize, DbWorkerMsg),
    /// A message for the maintenance worker.
    ToMaintenance(DbMaintenanceMsg),
}

/// What the manager holds.
pub ghost struct DbManagerView {
    pub meta: DbMetadataView,
    pub store: QueryStoreView,
    pub workers: Seq<bool>,
    pub actions: Seq<ManagerAction>,
}

/// The database manager.
#[derive(Debug)]
pub struct DbManager {
    db_meta: DbMetadata,
    query_store: QueryStore,
    _paths: DbPaths,
    workers_manager: WorkersPool,
    actions: Vec<ManagerAction>,
}

impl View for DbManager {
    type V = DbManagerView;

    closed spec fn view(&self) -> DbManagerView {
        DbManagerView {
            meta: self.db_meta@,
            store: self.query_store@,
            workers: self.workers_manager@,
            actions: self.actions@,
        }
    }
}

/// The metadata after a save was asked for if enough changes were made:
/// the changes are then forgotten.
pub open spec fn after_save_check(v: DbMetadataView) -> DbMetadataView {
    if v.changes >= MAX_ALLOWED_METADATA_CHANGES {
        DbMetadataView { changes: 0, ..v }
    } else {
        v
    }
}

/// The actions after a save was asked for if enough changes were made in
/// `v`: a request to save the metadata as it was.
pub open spec fn save_check_actions(v: DbMetadataView, actions: Seq<ManagerAction>, new_actions: Seq<ManagerAction>) -> bool {
    if v.changes >= MAX_ALLOWED_METADATA_CHANGES {
        &&& new_actions.len() == actions.len() + 1
        &&& new_actions.take(actions.len() as int) == actions
        &&& new_actions.last() matches ManagerAction::ToMaintenance(DbMaintenanceMsg::SaveMetadata(m)) && m@ == v && m.wf()
    } else {
        new_actions == actions
    }
}

/// How the query at the front of the queue fares when a worker is free.
pub enum NextQueryFate {
    /// It is not known, or it is a COPY into a table of no known name.
    Fails,
    /// It is a COPY into a table another COPY holds: it goes to the back of
    /// the queue.
    Waits,
    /// It may not run (see [`query_authorized`]): it is FAILED.
    Refused,
    /// It is handed to a worker.
    Runs,
}

/// How the query at the front of the queue of `v` fares (see
/// [`NextQueryFate`]).
pub open spec fn next_query_fate(v: DbManagerView) -> NextQueryFate {
    let q = v.store.queue[0];
    let def = v.store.queries[q].query_definition;
    let tn = query_table(def);
    let copy = kind_of(def) == QueryType::CopyQuery;
    if !v.store.queries.contains_key(q) {
        NextQueryFate::Fails
    } else if copy && !v.meta.names.contains_key(tn) {
        NextQueryFate::Fails
    } else if copy && v.meta.states[v.meta.names[tn]].copy_flag != CopyFlag::NoCopy {
        NextQueryFate::Waits
    } else if !query_authorized(v.meta, tn) {
        NextQueryFate::Refused
    } else {
        NextQueryFate::Runs
    }
}

/// Whether the queue of `v` would be served without error: no worker is
/// free, the queue is empty, or the front query waits or runs.
pub open spec fn serve_ok(v: DbManagerView) -> bool {
    !any_free(v.workers) || v.store.queue.len() == 0 || next_query_fate(v) is Waits || next_query_fate(v) is Runs
}

/// What serving the queue once does to manager `o`, giving manager `n`
/// (see [`NextQueryFate`]): with no free worker or an empty queue nothing
/// changes; otherwise only the front query may change, and
/// - a query that waits goes to the back of the queue, nothing else
///   changing;
/// - a refused query is FAILED;
/// - a query that runs is RUNNING, the first free worker `w` is taken, and
///   one message is queued for it: to execute that query.
pub open spec fn queue_served(o: DbManagerView, n: DbManagerView) -> bool {
    let q = o.store.queue[0];
    &&& only_front_query_changed(o.store, n.store)
    &&& (!any_free(o.workers) || o.store.queue.len() == 0) ==> n == o
    &&& any_free(o.workers) && o.store.queue.len() > 0 ==> match next_query_fate(o) {
        NextQueryFate::Fails => true,
        NextQueryFate::Waits => {
            &&& n.meta == o.meta
            &&& n.store == (QueryStoreView { queue: o.store.queue.drop_first().push(q), ..o.store })
            &&& n.workers == o.workers
            &&& n.actions == o.actions
        },
        NextQueryFate::Refused => n.store.queries[q].status == QueryStatus::FAILED,
        NextQueryFate::Runs => {
            &&& n.store.queries[q].status == QueryStatus::RUNNING
            &&& n.actions.len() == o.actions.len() + 1
            &&& n.actions.drop_last() == o.actions
            &&& n.actions.last() matches ManagerAction::ToWorker(w, DbWorkerMsg::ExecQuery(w2, d)) && w == w2
                && w < o.workers.len() && o.workers[w as int] && (forall|j: int| 0 <= j < w ==> !#[trigger] o.workers[j])
                && n.workers == o.workers.update(w as int, false)
                && crate::db::manager::messages::BaseQueryDataInfo::spec_query_id(&d) == q
        },
    }
}

/// The result of serving the queue of `o` once: `Ok(true)` when the front
/// query runs, `Ok(false)` when nothing was handed over, an error when the
/// front query fails or is refused.
pub open spec fn serve_result(o: DbManagerView, r: Result<bool, DbError>) -> bool {
    if !any_free(o.workers) || o.store.queue.len() == 0 {
        r == Ok::<bool, DbError>(false)
    } else {
        match next_query_fate(o) {
            NextQueryFate::Fails => r is Err,
            NextQueryFate::Refused => r is Err,
            NextQueryFate::Waits => r == Ok::<bool, DbError>(false),
            NextQueryFate::Runs => r == Ok::<bool, DbError>(true),
        }
    }
}

impl DbManager {
    pub closed spec fn wf(&self) -> bool {
        &&& self.db_meta.wf()
        &&& self.query_store.wf()
    }

    /// A manager of `db_meta` with `nbr_of_db_workers` free workers and no
    /// queries.
    pub fn new(
        db_meta: DbMetadata,
        db_data_dir_path: &str,
        metadata_file_path: &str,
        nbr_of_db_workers: usize,
    ) -> (r: DbManager)
        requires
            db_meta.wf(),
        ensures
            r.wf(),
            r@.meta == db_meta@,
            r@.store == QueryStore::new_view(),
            r@.workers.len() == nbr_of_db_workers,
            forall|i: int| 0 <= i < nbr_of_db_workers ==> #[trigger] r@.workers[i],
            r@.actions == Seq::<ManagerAction>::empty(),
    {
        let r = DbManager {
            db_meta,
            query_store: QueryStore::new(),
            _paths: DbPaths::new(metadata_file_path, db_data_dir_path),
            workers_manager: WorkersPool::new(nbr_of_db_workers),
            actions: Vec::new(),
        };
        assert(r@.actions =~= Seq::<ManagerAction>::empty());
        r
    }

    /// The actions decided since they were last taken, in order; none are
    /// left.
    pub fn take_actions(&mut self) -> (r: Vec<ManagerAction>)
        ensures
            r@ == old(self)@.actions,
            final(self)@ == (DbManagerView { actions: Seq::empty(), ..old(self)@ }),
            final(self).wf() == old(self).wf(),
    {
        let mut out: Vec<ManagerAction> = Vec::new();
        std::mem::swap(&mut out, &mut self.actions);
        assert(self@.actions =~= Seq::<ManagerAction>::empty());
        out
    }

    // ------------------------------------------------------------------
    // Tables
    // ------------------------------------------------------------------

    pub fn get_tables(&self) -> (r: Vec<ShallowTable>)
        requires
            self.wf(),
        ensures
            r@.map_values(|t: ShallowTable| t@) == visible_tables(self@.meta),
    {
        self.db_meta.get_tables()
    }

    pub fn get_table_details(&self, table_id: &u128) -> (r: Result<TableSchema, DbError>)
        requires
            self.wf(),
        ensures
            r is Ok <==> table_alive(self@.meta, *table_id),
            r matches Ok(s) ==> s@ == crate::db::storage::metadata::schema_of(self@.meta.tables[*table_id]),
            r is Err ==> r->Err_0 is NotFound,
    {
        self.db_meta.get_table_details(table_id)
    }

    /// Asks for the metadata to be saved if enough changes were made, and
    /// forgets the changes.
    fn save_metadata_if_enough_changes(&mut self)
        requires
            old(self).wf(),
        ensures
            final(self).wf(),
            final(self)@.meta == after_save_check(old(self)@.meta),
            final(self)@.store == old(self)@.store,
            final(self)@.workers == old(self)@.workers,
            save_check_actions(old(self)@.meta, old(self)@.actions, final(self)@.actions),
    {
        if self.db_meta.is_enough_changes() {
            let db_meta_clone = self.db_meta.duplicate();
            self.db_meta.reset_changes();
            self.actions.push(ManagerAction::ToMaintenance(DbMaintenanceMsg::SaveMetadata(db_meta_clone)));
            proof {
                assert(self@.actions.take(old(self)@.actions.len() as int) =~= old(self)@.actions);
            }
        }
    }

    /// Deletes a table: it is marked for deletion, and if no query works on
    /// it, it is removed and its files are handed to the maintenance worker
    /// for deletion (after a save of the metadata if enough changes were
    /// made); otherwise it is deleted when its last query ends. `NotFound`
    /// if there is no such table.
    pub fn delete_table(&mut self, table_id: &u128) -> (r: Result<(), DbError>)
        requires
            old(self).wf(),
        ensures
            final(self).wf(),
            delete_outcome(old(self)@, final(self)@, *table_id, r),
    {
        self.db_meta.mark_table_for_deletion(table_id)?;
        match self.db_meta.delete_table(table_id) {
            Ok(t_meta) => {
                self.save_metadata_if_enough_changes();
                let ghost before = self@.actions;
                self.actions.push(ManagerAction::ToMaintenance(DbMaintenanceMsg::DeleteTable(t_meta)));
                assert(self@.actions.drop_last() =~= before);
                Ok(())
            },
            Err(_) => Ok(()),
        }
    }

    /// Adds a table (see [`DbMetadata::put_table`]) and asks for a save of
    /// the metadata if enough changes were made.
    pub fn put_table(&mut self, schema: &TableSchema) -> (r: Result<u128, DbError>)
        requires
            old(self).wf(),
            old(self)@.meta.table_count < u16::MAX,
            old(self)@.meta.changes < u16::MAX,
        ensures
            final(self).wf(),
            final(self)@.store == old(self)@.store,
            final(self)@.workers == old(self)@.workers,
            r is Err ==> final(self)@ == old(self)@,
            !schema_cols_ok(schema@.1) ==> r is Err,
            old(self)@.meta.names.contains_key(schema@.0) ==> (r matches Err(DbError::InvalidName(n)) && n@ == schema@.0),
            !old(self)@.meta.names.contains_key(schema@.0) && schema_cols_ok(schema@.1) && r is Err ==> r->Err_0 is Other,
            r matches Ok(id) ==> !old(self)@.meta.tables.contains_key(id) && !old(self)@.meta.names.contains_key(schema@.0)
                && final(self)@.meta == after_save_check(
                after_put(old(self)@.meta, schema@, id),
            ) && save_check_actions(after_put(old(self)@.meta, schema@, id), old(self)@.actions, final(self)@.actions),
    {
        let table_id = self.db_meta.put_table(schema)?;
        self.save_metadata_if_enough_changes();
        Ok(table_id)
    }
}

/// The files a COPY reports fit table `tid` of `meta`: the table is known
/// and the report names its columns, in order.
pub open spec fn copy_files_fit(meta: DbMetadataView, tid: u128, ids: Seq<(String, u16)>) -> bool {
    let lv = name_id_pairs(ids);
    let t = meta.tables[tid];
    &&& meta.tables.contains_key(tid)
    &&& t.columns.len() == lv.len()
    &&& forall|j: int| 0 <= j < lv.len() ==> #[trigger] t.columns[j].name == lv[j].0
}

/// Whether the end of query `qid` on table `tid` by worker `worker_id` can
/// be recorded in `o`: the worker is one of the pool, the table is known
/// and a query works on it, the query is known, and a COPY holds the
/// table's copy lock.
pub open spec fn end_recordable(o: DbManagerView, worker_id: usize, qid: u128, tid: u128) -> bool {
    &&& worker_id < o.workers.len()
    &&& o.meta.tables.contains_key(tid)
    &&& o.meta.states[tid].n_queries_operating_on_table > 0
    &&& o.store.queries.contains_key(qid)
    &&& o.store.queries[qid].query_definition is CopyQ ==> o.meta.states[tid].copy_flag == CopyFlag::CopyInProgress
}

/// Whether the completion `q_msg` by worker `worker_id` can be recorded in
/// `o` (see [`end_recordable`]), the files a COPY reports fitting its
/// table.
pub open spec fn completion_recordable(o: DbManagerView, worker_id: usize, q_msg: QueryCompletionMsg) -> bool {
    &&& end_recordable(o, worker_id, q_msg.spec_query_id(), q_msg.spec_table_id())
    &&& (q_msg.spec_res() matches WorkerMsgRes::CopyRes(ids) ==> copy_files_fit(o.meta, q_msg.spec_table_id(), ids@))
}

/// Whether the failure `q_msg` by worker `worker_id` can be recorded in `o`
/// (see [`end_recordable`]).
pub open spec fn failure_recordable(o: DbManagerView, worker_id: usize, q_msg: QueryFailureMsg) -> bool {
    end_recordable(o, worker_id, q_msg.spec_query_id(), q_msg.spec_table_id())
}

/// Manager `v` with the actions `acts`.
pub open spec fn with_actions(v: DbManagerView, acts: Seq<ManagerAction>) -> DbManagerView {
    DbManagerView { actions: acts, ..v }
}

/// The metadata `v` with the files a COPY into table `tid` reported
/// recorded: each column gets the paths of its files up to the last id
/// reported for it (see [`columns_with_files`]).
pub open spec fn with_reported_files(v: DbMetadataView, tid: u128, lv: Seq<(Seq<char>, u16)>) -> DbMetadataView {
    let t = v.tables[tid];
    with_table_columns(v, tid, columns_with_files(t.columns, lv, v.db_data_dir_path, tid, t.name, t.columns.len() as int))
}

/// The metadata `v` after the check made when a query on table `tid`
/// ended: a table marked for deletion that no query works on any more is
/// deleted (with a save of the metadata if enough changes were made).
pub open spec fn meta_after_deletion_check(v: DbMetadataView, tid: u128) -> DbMetadataView {
    if v.tables.contains_key(tid) && v.states[tid].delete_flag == DeleteFlag::DoDelete
        && v.states[tid].n_queries_operating_on_table == 0 {
        after_save_check(after_delete(v, tid))
    } else {
        v
    }
}

/// The metadata `o` once the end of a query on table `tid` was recorded:
/// one query less works on the table, a COPY (`copy`) gives up its copy
/// lock, the files a COPY reported (`files`) are recorded, and the table
/// is deleted if that is due (see [`meta_after_deletion_check`]).
pub open spec fn meta_after_end(o: DbMetadataView, tid: u128, copy: bool, files: Option<Seq<(Seq<char>, u16)>>) -> DbMetadataView {
    let a = with_one_less_query(o, tid);
    let b = if copy { with_copy_flag(a, tid, CopyFlag::NoCopy) } else { a };
    let c = match files {
        Some(lv) => with_reported_files(b, tid, lv),
        None => b,
    };
    meta_after_deletion_check(c, tid)
}

/// Manager `o` once the completion `q_msg` by worker `worker_id` was
/// recorded, before the queue is served: the worker is free, the metadata
/// is as [`meta_after_end`] says, the query is COMPLETED and the result of
/// a SELECT is kept.
pub open spec fn completed_state(o: DbManagerView, worker_id: usize, q_msg: QueryCompletionMsg) -> DbManagerView {
    let qid = q_msg.spec_query_id();
    let tid = q_msg.spec_table_id();
    let copy = o.store.queries[qid].query_definition is CopyQ;
    let files = match q_msg.spec_res() {
        WorkerMsgRes::CopyRes(ids) => Some(name_id_pairs(ids@)),
        WorkerMsgRes::SelectRes(_) => None,
    };
    let queries = o.store.queries.insert(qid, with_status(o.store.queries[qid], QueryStatus::COMPLETED));
    DbManagerView {
        meta: meta_after_end(o.meta, tid, copy, files),
        store: match q_msg.spec_res() {
            WorkerMsgRes::SelectRes(res) => QueryStoreView { queries, results: o.store.results.insert(qid, res), ..o.store },
            WorkerMsgRes::CopyRes(_) => QueryStoreView { queries, ..o.store },
        },
        workers: o.workers.update(worker_id as int, true),
        ..o
    }
}

/// Manager `o` once the failure `q_msg` by worker `worker_id` was
/// recorded, before the queue is served: as for a completion (see
/// [`completed_state`]), but no files are recorded, the query is FAILED and
/// its problems are kept.
pub open spec fn failed_state(o: DbManagerView, worker_id: usize, q_msg: QueryFailureMsg) -> DbManagerView {
    let qid = q_msg.spec_query_id();
    let tid = q_msg.spec_table_id();
    let copy = o.store.queries[qid].query_definition is CopyQ;
    DbManagerView {
        meta: meta_after_end(o.meta, tid, copy, None),
        store: QueryStoreView {
            queries: o.store.queries.insert(qid, with_status(o.store.queries[qid], QueryStatus::FAILED)),
            failed: o.store.failed.insert(qid, q_msg.spec_problems()),
            ..o.store
        },
        workers: o.workers.update(worker_id as int, true),
        ..o
    }
}

/// The manager `o` once the query `def` was accepted under `id`: one more
/// query works on its table, and the query is kept as CREATED and put at
/// the end of the queue.
pub open spec fn posted(o: DbManagerView, def: AllowedQueryView, id: u128) -> DbManagerView {
    DbManagerView {
        meta: with_one_more_query(o.meta, o.meta.names[query_table(def)]),
        store: QueryStoreView {
            queries: o.store.queries.insert(id, fresh_query(id, def)),
            order: o.store.order.push(id),
            queue: o.store.queue.push(id),
            ..o.store
        },
        ..o
    }
}

/// What submitting the query `def` under `id` does to manager `o`, giving
/// manager `n` and the result `r`: a query that may not run is refused
/// (`NotFound`) and kept as FAILED; an id in use is `Other`; otherwise the
/// query is accepted (see [`posted`]) and the queue served once (see
/// [`queue_served`]): with no free worker it waits, else the front query
/// fares as [`next_query_fate`] says (when it runs, it is RUNNING and a
/// free worker is sent it), an error there being the result.
pub open spec fn post_outcome(o: DbManagerView, n: DbManagerView, def: AllowedQueryView, id: u128, r: Result<u128, DbError>) -> bool {
    let t = query_table(def);
    if !query_authorized(o.meta, t) {
        &&& o.store.queries.contains_key(id) ==> r is Err && r->Err_0 is Other && n == o
        &&& !o.store.queries.contains_key(id) ==> r is Err && r->Err_0 is NotFound && n == (DbManagerView {
            store: QueryStoreView {
                queries: o.store.queries.insert(id, with_status(fresh_query(id, def), QueryStatus::FAILED)),
                order: o.store.order.push(id),
                ..o.store
            },
            ..o
        })
    } else if o.store.queries.contains_key(id) {
        r is Err && r->Err_0 is Other && n == (DbManagerView {
            meta: with_one_more_query(o.meta, o.meta.names[t]),
            ..o
        })
    } else {
        let p = posted(o, def, id);
        &&& queue_served(p, n)
        &&& serve_ok(p) ==> r == Ok::<u128, DbError>(id)
        &&& !serve_ok(p) ==> r is Err
        &&& n.store.queries.contains_key(id)
        &&& n.store.queries[id].query_definition == def
    }
}

/// What recording the completion of `q_msg` by worker `worker_id` took
/// from manager `o` to manager `n`: the worker, the table and the query
/// were known, and the query (unless it is at the front of the queue, to be
/// run again) is COMPLETED, the result of a SELECT kept; the state is that
/// of [`completed_state`], with the queue then served once (see
/// [`queue_served`]; the actions queued while recording are left open).
pub open spec fn completion_recorded(o: DbManagerView, n: DbManagerView, worker_id: usize, q_msg: QueryCompletionMsg) -> bool {
    let qid = q_msg.spec_query_id();
    let tid = q_msg.spec_table_id();
    &&& worker_id < o.workers.len()
    &&& o.meta.tables.contains_key(tid)
    &&& o.meta.states[tid].n_queries_operating_on_table > 0
    &&& o.store.queries.contains_key(qid)
    &&& (o.store.queue.len() == 0 || o.store.queue[0] != qid) ==> n.store.queries[qid].status == QueryStatus::COMPLETED
    &&& (q_msg.spec_res() matches WorkerMsgRes::SelectRes(res) ==> n.store.results.contains_key(qid) && n.store.results[qid]
        == res)
    &&& exists|acts: Seq<ManagerAction>| #[trigger] queue_served(with_actions(completed_state(o, worker_id, q_msg), acts), n)
}

/// What recording the failure of `q_msg` by worker `worker_id` took from
/// manager `o` to manager `n`: as for a completion, but the query is FAILED
/// and its problems are kept (see [`failed_state`]).
pub open spec fn failure_recorded(o: DbManagerView, n: DbManagerView, worker_id: usize, q_msg: QueryFailureMsg) -> bool {
    let qid = q_msg.spec_query_id();
    let tid = q_msg.spec_table_id();
    &&& worker_id < o.workers.len()
    &&& o.meta.tables.contains_key(tid)
    &&& o.meta.states[tid].n_queries_operating_on_table > 0
    &&& o.store.queries.contains_key(qid)
    &&& (o.store.queue.len() == 0 || o.store.queue[0] != qid) ==> n.store.queries[qid].status == QueryStatus::FAILED
    &&& n.store.failed.contains_key(qid)
    &&& n.store.failed[qid] == q_msg.spec_problems()
    &&& exists|acts: Seq<ManagerAction>| #[trigger] queue_served(with_actions(failed_state(o, worker_id, q_msg), acts), n)
}

/// What deleting table `id` does to manager `o`, giving manager `n` and
/// the result `r`: an unknown table is `NotFound` and nothing changes; the
/// table is marked for deletion; if no query works on it, it is removed
/// (with a save of the metadata if enough changes were made) and its files
/// handed to the maintenance worker.
pub open spec fn delete_outcome(o: DbManagerView, n: DbManagerView, id: u128, r: Result<(), DbError>) -> bool {
    let marked = with_state(o.meta, id, TableState { delete_flag: DeleteFlag::DoDelete, ..o.meta.states[id] });
    &&& r is Ok <==> o.meta.tables.contains_key(id)
    &&& r is Err ==> r->Err_0 is NotFound && n == o
    &&& n.store == o.store
    &&& n.workers == o.workers
    &&& r is Ok && o.meta.states[id].n_queries_operating_on_table != 0 ==> n.meta == marked && n.actions == o.actions
    &&& r is Ok && o.meta.states[id].n_queries_operating_on_table == 0 ==> {
        &&& n.meta == after_save_check(after_delete(marked, id))
        &&& n.actions.len() > 0
        &&& save_check_actions(after_delete(marked, id), o.actions, n.actions.drop_last())
        &&& n.actions.last() matches ManagerAction::ToMaintenance(DbMaintenanceMsg::DeleteTable(t)) && t@ == o.meta.tables[id]
    }
}

/// The manager `o` after the result of query `id` was read: with
/// `do_flush` the result is forgotten, otherwise nothing changes.
pub open spec fn after_result_read(o: DbManagerView, id: u128, do_flush: bool) -> DbManagerView {
    if do_flush {
        DbManagerView { store: QueryStoreView { results: o.store.results.remove(id), ..o.store }, ..o }
    } else {
        o
    }
}

/// The queries as listed: id and state, in the order they were given.
pub open spec fn listed_queries(s: QueryStoreView) -> Seq<(u128, QueryStatus)> {
    s.order.map_values(|id: u128| (id, s.queries[id].status))
}

/// Only the state of the query at the front of the queue (if any) may have
/// changed, and no query was added or removed; results and failures are
/// kept.
pub open spec fn only_front_query_changed(o: QueryStoreView, n: QueryStoreView) -> bool {
    &&& n.order == o.order
    &&& n.results == o.results
    &&& n.failed == o.failed
    &&& forall|k: u128| #[trigger] n.queries.contains_key(k) == o.queries.contains_key(k)
    &&& forall|k: u128|
        o.queries.contains_key(k) && (o.queue.len() == 0 || k != o.queue[0]) ==> #[trigger] n.queries[k] == o.queries[k]
    &&& forall|k: u128|
        o.queries.contains_key(k) ==> (#[trigger] n.queries[k]).query_definition == o.queries[k].query_definition
            && n.queries[k].query_id == o.queries[k].query_id
}

impl DbManager {
    /// The queries, each as its id and state, in the order they were given.
    pub fn get_queries(&self) -> (r: Result<Vec<ShallowQuery>, DbError>)
        requires
            self.wf(),
        ensures
            r matches Ok(v) && v@.map_values(|q: ShallowQuery| q@) == listed_queries(self@.store),
    {
        let queries = self.query_store.queries();
        let n = queries.len();
        let mut out: Vec<ShallowQuery> = Vec::new();
        let mut i: usize = 0;
        while i < n
            invariant
                queries.wf(),
                queries.ids() == self@.store.order,
                queries@.map_values(|q: Query| q@) == self@.store.queries,
                n == queries.ids().len(),
                i <= n,
                out@.map_values(|q: ShallowQuery| q@) == listed_queries(self@.store).take(i as int),
            decreases n - i,
        {
            let (q_id, q) = queries.entry_at(i);
            let ghost prev = out@;
            let sq = ShallowQuery::new(q_id, q.status());
            out.push(sq);
            proof {
                assert(self@.store.queries[q_id] == q@);
                assert(out@.map_values(|q: ShallowQuery| q@) =~= prev.map_values(|q: ShallowQuery| q@).push(sq@));
                assert(listed_queries(self@.store).take(i + 1) =~= listed_queries(self@.store).take(i as int).push(sq@));
            }
            i = i + 1;
        }
        assert(listed_queries(self@.store).take(n as int) =~= listed_queries(self@.store));
        Ok(out)
    }

    /// A copy of query `query_id`; `NotFound` if there is none.
    pub fn get_query_details(&self, query_id: &u128) -> (r: Result<Query, DbError>)
        requires
            self.wf(),
        ensures
            r is Ok <==> self@.store.queries.contains_key(*query_id),
            r matches Ok(q) ==> q@ == self@.store.queries[*query_id],
            r is Err ==> r->Err_0 is NotFound,
    {
        match self.query_store.queries().get(query_id) {
            Some(q) => {
                proof {
                    assert(self@.store.queries[*query_id] == q@);
                }
                Ok(q.duplicate())
            },
            None => Err(DbError::NotFound("query not found in db".to_string())),
        }
    }

    /// The result of query `query_id` cut to `row_limit` rows (see
    /// [`QueryResult::get_n_rows`]); with `do_flush` the result is then
    /// forgotten. `NotFound` if there is no result.
    pub fn get_query_result(&mut self, query_id: &u128, row_limit: usize, do_flush: bool) -> (r: Result<QueryResult, DbError>)
        requires
            old(self).wf(),
        ensures
            final(self).wf(),
            r is Ok <==> old(self)@.store.results.contains_key(*query_id),
            r is Err ==> r->Err_0 is NotFound && final(self)@ == old(self)@,
            r matches Ok(q) ==> q.is_limited_from(old(self)@.store.results[*query_id], row_limit),
            r is Ok ==> final(self)@ == after_result_read(old(self)@, *query_id, do_flush),
    {
        let q_res = self.query_store.get_query_result(query_id)?;
        let limited_query_res = q_res.get_n_rows(row_limit)?;
        if do_flush {
            self.query_store.remove_query_res(query_id);
        }
        Ok(limited_query_res)
    }

    /// The problems of failed query `query_id` (see
    /// [`QueryStore::get_query_failure`]).
    pub fn get_query_failed(&mut self, query_id: &u128) -> (r: Result<MultipleProblemsError, DbError>)
        requires
            old(self).wf(),
        ensures
            final(self)@ == old(self)@,
            final(self).wf(),
            r is Ok <==> old(self)@.store.failed.contains_key(*query_id),
            r matches Ok(e) ==> e@ == old(self)@.store.failed[*query_id],
            r is Err ==> r->Err_0 is NotFound,
    {
        self.query_store.get_query_failure(query_id)
    }

    /// For a COPY, tries to take the copy lock of its table (see
    /// [`DbMetadata::acquire_copy_lock_for_table`]), the table found by
    /// name; a SELECT needs no lock.
    fn acquire_copy_lock_if_needed(query_type: &QueryType, table_name: &str, db_meta: &mut DbMetadata) -> (r: Result<bool, DbError>)
        requires
            old(db_meta).wf(),
        ensures
            final(db_meta).wf(),
            *query_type == QueryType::SelectQuery ==> r == Ok::<bool, DbError>(true) && final(db_meta)@ == old(db_meta)@,
            *query_type == QueryType::CopyQuery ==> {
                let o = old(db_meta)@;
                &&& r is Ok <==> o.names.contains_key(table_name@)
                &&& r matches Ok(b) ==> b == (o.states[o.names[table_name@]].copy_flag == crate::db::storage::metadata::CopyFlag::NoCopy)
                &&& r == Ok::<bool, DbError>(true) ==> final(db_meta)@ == crate::db::storage::metadata::with_copy_flag(
                    o,
                    o.names[table_name@],
                    crate::db::storage::metadata::CopyFlag::CopyInProgress,
                )
                &&& r != Ok::<bool, DbError>(true) ==> final(db_meta)@ == o
                &&& r is Err ==> r->Err_0 is InternalDbError
            },
    {
        match query_type {
            QueryType::SelectQuery => Ok(true),
            QueryType::CopyQuery => {
                let table_id = db_meta.get_table_id(table_name)?;
                proof {
                    db_meta.lemma_wf();
                }
                db_meta.acquire_copy_lock_for_table(&table_id)
            },
        }
    }

    /// Hands the query at the front of the queue to a free worker, if one
    /// is free. The query must be planned (see
    /// [`DbMetadata::plan_query_execution`]); a COPY must first take the copy
    /// lock of its table, and goes back to the end of the queue if another
    /// COPY holds it. `Ok(true)` when the query was handed over: it is
    /// RUNNING and a message for the worker is queued.
    fn execute_next_query(&mut self) -> (r: Result<bool, DbError>)
        requires
            old(self).wf(),
        ensures
            final(self).wf(),
            queue_served(old(self)@, final(self)@),
            serve_result(old(self)@, r),
    {
        if !self.workers_manager.is_any_worker_available() {
            return Ok(false);
        }
        let ghost s0 = self@;
        let pending_q_id = match self.query_store.pop_pending_query() {
            Some(q) => q,
            None => {
                return Ok(false);
            },
        };
        proof {
            self.query_store.lemma_ids_match();
        }
        let query_type = self.query_store.get_query_type(&pending_q_id)?;
        let lock = {
            let table_name = self.query_store.get_query_table_name(&pending_q_id)?;
            DbManager::acquire_copy_lock_if_needed(&query_type, table_name, &mut self.db_meta)?
        };
        if !lock {
            self.query_store.schedule_for_execution(&pending_q_id);
            return Ok(false);
        }
        let pending_q = self.query_store.get_query_mut_ref(pending_q_id)?;
        let query_plan_data = match self.db_meta.plan_query_execution(pending_q) {
            Ok(val) => val,
            Err(e) => {
                pending_q.update_status(QueryStatus::FAILED);
                return match self.db_meta.decrease_nbr_of_queries_operating_on_table(None, Some(pending_q.table_name())) {
                    Ok(_) => Err(e),
                    Err(_) => Err(DbError::InternalDbError("planning failed, then decreasing the query count failed".to_string())),
                };
            },
        };
        pending_q.update_status(QueryStatus::RUNNING);
        match self.workers_manager.take_available_worker() {
            Some(worker_id) => {
                let ghost before = self@.actions;
                self.actions.push(ManagerAction::ToWorker(worker_id, DbWorkerMsg::ExecQuery(worker_id, query_plan_data)));
                assert(self@.actions.drop_last() =~= before);
                Ok(true)
            },
            None => {
                pending_q.update_status(QueryStatus::FAILED);
                match self.db_meta.decrease_nbr_of_queries_operating_on_table(None, Some(pending_q.table_name())) {
                    Ok(_) => Err(DbError::InternalDbError("no worker available".to_string())),
                    Err(_) => Err(DbError::InternalDbError("no worker available, then decreasing the query count failed".to_string())),
                }
            },
        }
    }
}

impl DbManager {
    /// Whether one more table fits: fewer than `u16::MAX` tables and
    /// changes to the metadata.
    pub fn can_put_table(&self) -> (r: bool)
        requires
            self.wf(),
        ensures
            r == (self@.meta.table_count < u16::MAX && self@.meta.changes < u16::MAX),
    {
        self.db_meta.table_count() < 65535 && self.db_meta.nbr_of_metadata_changes() < 65535
    }

    /// Whether one more query on the table named `table_name` can be
    /// counted: the table, if there is one, has fewer than `u16::MAX`
    /// queries working on it.
    pub fn can_count_query(&self, table_name: &str) -> (r: bool)
        requires
            self.wf(),
        ensures
            r == (self@.meta.names.contains_key(table_name@) ==> self@.meta.states[self@.meta.names[table_name@]].n_queries_operating_on_table
                < u16::MAX),
    {
        match self.db_meta.get_table_id(table_name) {
            Ok(id) => {
                proof {
                    self.db_meta.lemma_wf();
                }
                match self.db_meta.table_state(&id) {
                    Some(st) => st.n_queries_operating_on_table < 65535,
                    None => true,
                }
            },
            Err(_) => true,
        }
    }
}

impl DbManager {
    /// Submits a query under `id`. A query on a table that does not exist
    /// or is marked for deletion is refused with `NotFound`, and kept under
    /// `id` as FAILED. Otherwise one more query works on its table, the query
    /// is kept under `id` as CREATED, put at the end of the queue and the
    /// queue is served (see [`DbManager::execute_next_query`]), and `id` is
    /// returned. An id already in use is `Other` (see [`post_outcome`]).
    pub fn post_query_with_id(&mut self, query: AllowedQuery, id: u128) -> (r: Result<u128, DbError>)
        requires
            old(self).wf(),
            old(self)@.meta.names.contains_key(query_table(query@)) ==> old(self)@.meta.states[old(self)@.meta.names[query_table(query@)]].n_queries_operating_on_table
                < u16::MAX,
        ensures
            final(self).wf(),
            post_outcome(old(self)@, final(self)@, query@, id, r),
    {
        let ghost qv = query@;
        match self.db_meta.increase_nbr_of_queries_operating_on_table(&query) {
            Ok(_) => {},
            Err(e) => {
                let mut new_query = Query::new_with_id(query, id);
                new_query.update_status(QueryStatus::FAILED);
                self.query_store.insert_query(new_query)?;
                return Err(e);
            },
        }
        let new_query = Query::new_with_id(query, id);
        self.query_store.insert_query(new_query)?;
        self.query_store.schedule_for_execution(&id);
        proof {
            self.query_store.lemma_ids_match();
            assert(self@ == posted(old(self)@, qv, id));
        }
        self.execute_next_query()?;
        Ok(id)
    }

    /// Submits a query under a new random id; whatever the id, the outcome
    /// is that of [`DbManager::post_query_with_id`] with it.
    pub fn post_query(&mut self, query: AllowedQuery) -> (r: Result<u128, DbError>)
        requires
            old(self).wf(),
            old(self)@.meta.names.contains_key(query_table(query@)) ==> old(self)@.meta.states[old(self)@.meta.names[query_table(query@)]].n_queries_operating_on_table
                < u16::MAX,
        ensures
            final(self).wf(),
            exists|id: u128| #[trigger] post_outcome(old(self)@, final(self)@, query@, id, r),
            !query_authorized(old(self)@.meta, query_table(query@)) ==> r is Err,
            !query_authorized(old(self)@.meta, query_table(query@)) && r->Err_0 is NotFound ==> exists|id: u128|
                !old(self)@.store.queries.contains_key(id) && #[trigger] final(self)@.store.queries.contains_key(id)
                    && final(self)@.store.queries[id].status == QueryStatus::FAILED
                    && final(self)@.store.queries[id].query_definition == query@,
            r matches Ok(id) ==> query_authorized(old(self)@.meta, query_table(query@)) && !old(self)@.store.queries.contains_key(id)
                && final(self)@.store.queries.contains_key(id) && final(self)@.store.queries[id].query_definition == query@,
    {
        let id = new_v4_id();
        let r = self.post_query_with_id(query, id);
        proof {
            if !query_authorized(old(self)@.meta, query_table(query@)) && r->Err_0 is NotFound {
                assert(final(self)@.store.queries.contains_key(id));
            }
        }
        r
    }

    /// Makes worker `worker_id` free (see [`WorkersPool::free_worker`]).
    fn free_db_worker(&mut self, worker_id: usize) -> (r: Result<(), DbError>)
        ensures
            r is Ok <==> worker_id < old(self)@.workers.len(),
            r is Ok ==> final(self)@ == (DbManagerView { workers: old(self)@.workers.update(worker_id as int, true), ..old(self)@ }),
            r is Err ==> r->Err_0 is InternalDbError && final(self)@ == old(self)@,
            final(self).wf() == old(self).wf(),
    {
        self.workers_manager.free_worker(worker_id)
    }

    /// Keeps what a completed query produced: the result of a SELECT, or,
    /// for a COPY, the paths of the files it wrote (see
    /// [`DbMetadata::append_newly_created_column_files`]).
    fn store_completed_query(completed_q: QueryCompletionMsg, db_meta: &mut DbMetadata, query_store: &mut QueryStore) -> (r: Result<(), DbError>)
        requires
            old(db_meta).wf(),
            old(query_store).wf(),
        ensures
            final(db_meta).wf(),
            final(query_store).wf(),
            completed_q.spec_res() matches WorkerMsgRes::SelectRes(res) ==> r is Ok && final(db_meta)@ == old(db_meta)@
                && final(query_store)@ == (QueryStoreView {
                    results: old(query_store)@.results.insert(completed_q.spec_query_id(), res),
                    ..old(query_store)@
                }),
            completed_q.spec_res() is CopyRes ==> final(query_store)@ == old(query_store)@,
            completed_q.spec_res() matches WorkerMsgRes::CopyRes(ids) ==> (r is Ok <==> copy_files_fit(
                old(db_meta)@,
                completed_q.spec_table_id(),
                ids@,
            )) && (r is Ok ==> final(db_meta)@ == with_reported_files(old(db_meta)@, completed_q.spec_table_id(), name_id_pairs(ids@))),
    {
        let query_id = completed_q.query_id();
        let table_id = completed_q.table_id();
        match completed_q.res() {
            WorkerMsgRes::SelectRes(s_res) => {
                query_store.store_query_result(&query_id, s_res);
                Ok(())
            },
            WorkerMsgRes::CopyRes(c_res) => db_meta.append_newly_created_column_files(&table_id, c_res),
        }
    }

    /// Keeps the problems of a failed query.
    fn store_failed_query(failed_q: QueryFailureMsg, query_store: &mut QueryStore)
        requires
            old(query_store).wf(),
        ensures
            final(query_store).wf(),
            final(query_store)@ == (QueryStoreView {
                failed: old(query_store)@.failed.insert(failed_q.spec_query_id(), failed_q.spec_problems()),
                ..old(query_store)@
            }),
    {
        let q_id = failed_q.query_id();
        query_store.store_query_failure(&q_id, failed_q.problems());
    }

    /// Deletes table `table_id` if it is marked for deletion and no query
    /// works on it any more, and hands its files to the maintenance worker.
    fn delete_table_if_due(&mut self, table_id: &u128) -> (r: Result<(), DbError>)
        requires
            old(self).wf(),
        ensures
            final(self).wf(),
            final(self)@.store == old(self)@.store,
            final(self)@.workers == old(self)@.workers,
            r is Ok <==> old(self)@.meta.tables.contains_key(*table_id),
            r is Ok ==> final(self)@.meta == meta_after_deletion_check(old(self)@.meta, *table_id),
    {
        if self.db_meta.can_table_be_deleted(table_id)? {
            let table_meta = self.db_meta.get_table_metadata(table_id)?.duplicate();
            self.db_meta.delete_table(table_id)?;
            self.save_metadata_if_enough_changes();
            self.actions.push(ManagerAction::ToMaintenance(DbMaintenanceMsg::DeleteTable(table_meta)));
        }
        Ok(())
    }

    /// Records that worker `worker_id` completed a query: the worker is
    /// free, one query less works on the table, a COPY gives up the copy
    /// lock, the query is COMPLETED and what it produced is kept; a table
    /// marked for deletion that no query works on any more is deleted; the
    /// queue is served.
    pub fn handle_completed_query(&mut self, worker_id: usize, q_msg: QueryCompletionMsg) -> (r: Result<(), DbError>)
        requires
            old(self).wf(),
        ensures
            final(self).wf(),
            r is Ok ==> completion_recorded(old(self)@, final(self)@, worker_id, q_msg),
            !completion_recordable(old(self)@, worker_id, q_msg) ==> r is Err,
            completion_recordable(old(self)@, worker_id, q_msg) ==> (r is Ok <==> serve_ok(
                completed_state(old(self)@, worker_id, q_msg),
            )),
    {
        let ghost o = self@;
        self.free_db_worker(worker_id)?;
        let table_id = q_msg.table_id();
        let query_id = q_msg.query_id();
        self.db_meta.decrease_nbr_of_queries_operating_on_table(Some(&table_id), None)?;
        let is_copy = self.query_store.check_if_query_is_copy(&query_id)?;
        self.db_meta.lift_copy_lock_from_table(&table_id, is_copy)?;
        self.query_store.update_query_status(&query_id, QueryStatus::COMPLETED)?;
        DbManager::store_completed_query(q_msg, &mut self.db_meta, &mut self.query_store)?;
        proof {
            self.db_meta.lemma_wf();
        }
        self.delete_table_if_due(&table_id)?;
        let ghost mid = self@;
        proof {
            assert(mid.meta == completed_state(o, worker_id, q_msg).meta);
            assert(mid.store == completed_state(o, worker_id, q_msg).store);
            assert(mid.workers == completed_state(o, worker_id, q_msg).workers);
            assert(mid == with_actions(completed_state(o, worker_id, q_msg), mid.actions));
        }
        self.execute_next_query()?;
        proof {
            assert(queue_served(with_actions(completed_state(o, worker_id, q_msg), mid.actions), self@));
        }
        Ok(())
    }

    /// Records that worker `worker_id` failed a query: as for a completed
    /// query (see [`DbManager::handle_completed_query`]), but the query is
    /// FAILED and its problems are kept.
    pub fn handle_failed_query(&mut self, worker_id: usize, q_msg: QueryFailureMsg) -> (r: Result<(), DbError>)
        requires
            old(self).wf(),
        ensures
            final(self).wf(),
            r is Ok ==> failure_recorded(old(self)@, final(self)@, worker_id, q_msg),
            !failure_recordable(old(self)@, worker_id, q_msg) ==> r is Err,
            failure_recordable(old(self)@, worker_id, q_msg) ==> (r is Ok <==> serve_ok(
                failed_state(old(self)@, worker_id, q_msg),
            )),
    {
        let ghost o = self@;
        self.free_db_worker(worker_id)?;
        let table_id = q_msg.table_id();
        let query_id = q_msg.query_id();
        self.db_meta.decrease_nbr_of_queries_operating_on_table(Some(&table_id), None)?;
        let is_copy = self.query_store.check_if_query_is_copy(&query_id)?;
        self.db_meta.lift_copy_lock_from_table(&table_id, is_copy)?;
        self.query_store.update_query_status(&query_id, QueryStatus::FAILED)?;
        DbManager::store_failed_query(q_msg, &mut self.query_store);
        proof {
            self.db_meta.lemma_wf();
        }
        self.delete_table_if_due(&table_id)?;
        let ghost mid = self@;
        proof {
            assert(mid.meta == failed_state(o, worker_id, q_msg).meta);
            assert(mid.store == failed_state(o, worker_id, q_msg).store);
            assert(mid.workers == failed_state(o, worker_id, q_msg).workers);
            assert(mid == with_actions(failed_state(o, worker_id, q_msg), mid.actions));
        }
        self.execute_next_query()?;
        proof {
            assert(queue_served(with_actions(failed_state(o, worker_id, q_msg), mid.actions), self@));
        }
        Ok(())
    }

    /// Asks for the metadata to be saved as it is (at shutdown).
    pub fn save_metadata(&mut self)
        requires
            old(self).wf(),
        ensures
            final(self).wf(),
            final(self)@.meta == old(self)@.meta,
            final(self)@.store == old(self)@.store,
            final(self)@.workers == old(self)@.workers,
            final(self)@.actions.len() == old(self)@.actions.len() + 1,
            final(self)@.actions.drop_last() == old(self)@.actions,
            final(self)@.actions.last() matches ManagerAction::ToMaintenance(DbMaintenanceMsg::SaveMetadata(m)) && m@ == old(self)@.meta,
    {
        let ghost before = self@.actions;
        let m = self.db_meta.duplicate();
        self.actions.push(ManagerAction::ToMaintenance(DbMaintenanceMsg::SaveMetadata(m)));
        assert(self@.actions.drop_last() =~= before);
    }
}

} // verus!

//! Queries the database was given: their states, the queue of queries
//! waiting for a worker, and what finished queries produced.
use vstd::prelude::*;
use std::collections::VecDeque;
use crate::db::errors::DbError;
use crate::db::manager::id_map::IdMap;
use crate::schemas::error::MultipleProblemsError;
use crate::schemas::query::{query_table, with_status, AllowedQuery, AllowedQueryView, Query, QueryResult, QueryStatus, QueryType, QueryView};

verus! {

/// What the store holds.
pub ghost struct QueryStoreView {
    /// Every query given, by id.
    pub queries: Map<u128, QueryView>,
    /// The ids of the queries, in the order they were given.
    pub order: Seq<u128>,
    /// Queries waiting for a worker, first to run first.
    pub queue: Seq<u128>,
    /// Results of completed SELECT queries.
    pub results: Map<u128, QueryResult>,
    /// Problems of failed queries.
    pub failed: Map<u128, Seq<(Seq<char>, Seq<char>)>>,
}

/// The queries of the database.
#[derive(Debug)]
pub struct QueryStore {
    queries: IdMap<Query>,
    query_queue: VecDeque<u128>,
    queries_results: IdMap<QueryResult>,
    queries_failed: IdMap<MultipleProblemsError>,
}

impl View for QueryStore {
    type V = QueryStoreView;

    closed spec fn view(&self) -> QueryStoreView {
        QueryStoreView {
            queries: self.queries@.map_values(|q: Query| q@),
            order: self.queries.ids(),
            queue: self.query_queue@,
            results: self.queries_results@,
            failed: self.queries_failed@.map_values(|e: MultipleProblemsError| e@),
        }
    }
}

/// The kind of a query.
pub open spec fn kind_of(q: AllowedQueryView) -> QueryType {
    if q is CopyQ {
        QueryType::CopyQuery
    } else {
        QueryType::SelectQuery
    }
}

/// Putting a query into a map and then taking views is taking views and
/// then putting the query's view.
proof fn lemma_views_insert(m: Map<u128, Query>, k: u128)
    ensures
        forall|v: Query| (#[trigger] m.insert(k, v)).map_values(|q: Query| q@) == m.map_values(|q: Query| q@).insert(k, v@),
{
    assert forall|v: Query| (#[trigger] m.insert(k, v)).map_values(|q: Query| q@) == m.map_values(|q: Query| q@).insert(k, v@) by {
        assert(m.insert(k, v).map_values(|q: Query| q@) =~= m.map_values(|q: Query| q@).insert(k, v@));
    }
}

impl QueryStore {
    /// What an empty store holds.
    pub open spec fn new_view() -> QueryStoreView {
        QueryStoreView {
            queries: Map::empty(),
            order: Seq::empty(),
            queue: Seq::empty(),
            results: Map::empty(),
            failed: Map::empty(),
        }
    }

    /// The maps are well formed and each query is kept under its own id.
    pub closed spec fn wf(&self) -> bool {
        &&& self.queries.wf()
        &&& self.queries_results.wf()
        &&& self.queries_failed.wf()
        &&& forall|k: u128| #[trigger] self.queries@.contains_key(k) ==> self.queries@[k]@.query_id == k
    }

    /// Each query is kept under its own id.
    pub proof fn lemma_ids_match(&self)
        requires
            self.wf(),
        ensures
            forall|k: u128| #[trigger] self@.queries.contains_key(k) ==> self@.queries[k].query_id == k,
    {
    }

    /// An empty store.
    pub fn new() -> (r: QueryStore)
        ensures
            r.wf(),
            r@ == QueryStore::new_view(),
    {
        let r = QueryStore {
            queries: IdMap::new(),
            query_queue: VecDeque::new(),
            queries_results: IdMap::new(),
            queries_failed: IdMap::new(),
        };
        assert(r@.queries =~= Map::<u128, QueryView>::empty());
        assert(r@.failed =~= Map::<u128, Seq<(Seq<char>, Seq<char>)>>::empty());
        r
    }

    /// The queries, in the order they were given.
    pub fn queries(&self) -> (r: &IdMap<Query>)
        requires
            self.wf(),
        ensures
            r.wf(),
            r@.map_values(|q: Query| q@) == self@.queries,
            r.ids() == self@.order,
    {
        &self.queries
    }

    /// The query `query_id`, to be changed in place; `InternalDbError` if
    /// there is none.
    pub fn get_query_mut_ref(&mut self, query_id: u128) -> (r: Result<&mut Query, DbError>)
        requires
            old(self).wf(),
        ensures
            r is Ok <==> old(self)@.queries.contains_key(query_id),
            r is Ok ==> (*r->Ok_0)@ == old(self)@.queries[query_id]
                && ((*final(r->Ok_0))@.query_id == query_id ==> final(self).wf())
                && final(self)@ == (QueryStoreView {
                    queries: old(self)@.queries.insert(query_id, (*final(r->Ok_0))@),
                    ..old(self)@
                }),
            r is Err ==> r->Err_0 is InternalDbError && *final(self) == *old(self),
    {
        proof {
            self.queries.lemma_ids();
            lemma_views_insert(self.queries@, query_id);
        }
        match self.queries.get_mut(&query_id) {
            Some(v) => Ok(v),
            None => Err(DbError::InternalDbError("no query with that id exists in query store".to_string())),
        }
    }

    /// The kind of query `query_id`; `InternalDbError` if there is none.
    pub fn get_query_type(&self, query_id: &u128) -> (r: Result<QueryType, DbError>)
        requires
            self.wf(),
        ensures
            r is Ok <==> self@.queries.contains_key(*query_id),
            r matches Ok(t) ==> t == kind_of(self@.queries[*query_id].query_definition),
            r is Err ==> r->Err_0 is InternalDbError,
    {
        match self.queries.get(query_id) {
            Some(q) => Ok(q.query_def().query_type()),
            None => Err(DbError::InternalDbError("query with that id doesn't exist".to_string())),
        }
    }

    /// The table query `query_id` is about; `InternalDbError` if there is
    /// none.
    pub fn get_query_table_name(&self, query_id: &u128) -> (r: Result<&str, DbError>)
        requires
            self.wf(),
        ensures
            r is Ok <==> self@.queries.contains_key(*query_id),
            r matches Ok(t) ==> t@ == query_table(self@.queries[*query_id].query_definition),
            r is Err ==> r->Err_0 is InternalDbError,
    {
        match self.queries.get(query_id) {
            Some(q) => Ok(q.table_name()),
            None => Err(DbError::InternalDbError("query with that id doesn't exist".to_string())),
        }
    }

    /// Stores a new query; `Other` if its id is taken.
    pub fn insert_query(&mut self, q: Query) -> (r: Result<(), DbError>)
        requires
            old(self).wf(),
        ensures
            final(self).wf(),
            r is Ok <==> !old(self)@.queries.contains_key(q@.query_id),
            r is Ok ==> final(self)@ == (QueryStoreView {
                queries: old(self)@.queries.insert(q@.query_id, q@),
                order: old(self)@.order.push(q@.query_id),
                ..old(self)@
            }),
            r is Err ==> r->Err_0 is Other && final(self)@ == old(self)@,
    {
        let q_id = *q.id();
        proof {
            self.queries.lemma_ids();
        }
        if self.queries.contains_key(&q_id) {
            return Err(DbError::Other("query with that id already exists".to_string()));
        }
        let ghost qv = q@;
        self.queries.insert(q_id, q);
        assert(self@.queries =~= old(self)@.queries.insert(q_id, qv));
        Ok(())
    }

    /// Puts a query at the end of the queue.
    pub fn schedule_for_execution(&mut self, q_id: &u128)
        ensures
            final(self)@ == (QueryStoreView { queue: old(self)@.queue.push(*q_id), ..old(self)@ }),
            final(self).wf() == old(self).wf(),
    {
        self.query_queue.push_back(*q_id);
    }

    /// Takes the query at the front of the queue, if any.
    pub fn pop_pending_query(&mut self) -> (r: Option<u128>)
        ensures
            old(self)@.queue.len() == 0 ==> r is None && final(self)@ == old(self)@,
            old(self)@.queue.len() > 0 ==> r == Some(old(self)@.queue[0]) && final(self)@ == (QueryStoreView {
                queue: old(self)@.queue.drop_first(),
                ..old(self)@
            }),
            final(self).wf() == old(self).wf(),
    {
        let r = self.query_queue.pop_front();
        proof {
            if old(self)@.queue.len() > 0 {
                assert(self@.queue =~= old(self)@.queue.drop_first());
            }
        }
        r
    }

    /// Keeps the result of a completed SELECT query.
    pub fn store_query_result(&mut self, q_id: &u128, q_res: QueryResult)
        requires
            old(self).wf(),
        ensures
            final(self).wf(),
            final(self)@ == (QueryStoreView { results: old(self)@.results.insert(*q_id, q_res), ..old(self)@ }),
    {
        let _ = self.queries_results.insert(*q_id, q_res);
    }

    /// Keeps the problems of a failed query.
    pub fn store_query_failure(&mut self, q_id: &u128, e: MultipleProblemsError)
        requires
            old(self).wf(),
        ensures
            final(self).wf(),
            final(self)@ == (QueryStoreView { failed: old(self)@.failed.insert(*q_id, e@), ..old(self)@ }),
    {
        let ghost ev = e@;
        let _ = self.queries_failed.insert(*q_id, e);
        assert(self@.failed =~= old(self)@.failed.insert(*q_id, ev));
    }

    /// The result of query `q_id`; `NotFound` if there is none.
    pub fn get_query_result(&self, q_id: &u128) -> (r: Result<&QueryResult, DbError>)
        requires
            self.wf(),
        ensures
            r is Ok <==> self@.results.contains_key(*q_id),
            r matches Ok(res) ==> *res == self@.results[*q_id],
            r is Err ==> r->Err_0 is NotFound,
    {
        match self.queries_results.get(q_id) {
            Some(res) => Ok(res),
            None => Err(DbError::NotFound("there is no result for that query".to_string())),
        }
    }

    /// The problems of failed query `q_id`; `NotFound` if it did not fail
    /// or does not exist.
    pub fn get_query_failure(&self, q_id: &u128) -> (r: Result<MultipleProblemsError, DbError>)
        requires
            self.wf(),
        ensures
            r is Ok <==> self@.failed.contains_key(*q_id),
            r matches Ok(e) ==> e@ == self@.failed[*q_id],
            r is Err ==> r->Err_0 is NotFound,
    {
        match self.queries_failed.get(q_id) {
            Some(res) => Ok(res.duplicate()),
            None => {
                if self.queries.contains_key(q_id) {
                    Err(DbError::NotFound("query hasn't FAILED".to_string()))
                } else {
                    Err(DbError::NotFound("query NOT FOUND in db".to_string()))
                }
            },
        }
    }

    /// Forgets the result of query `query_id`.
    pub fn remove_query_res(&mut self, query_id: &u128)
        requires
            old(self).wf(),
        ensures
            final(self).wf(),
            final(self)@ == (QueryStoreView { results: old(self)@.results.remove(*query_id), ..old(self)@ }),
    {
        let _ = self.queries_results.remove(query_id);
    }

    /// Changes the state of query `q_id` (see [`with_status`]);
    /// `InternalDbError` if there is no such query.
    pub fn update_query_status(&mut self, q_id: &u128, new_status: QueryStatus) -> (r: Result<(), DbError>)
        requires
            old(self).wf(),
        ensures
            final(self).wf(),
            r is Ok <==> old(self)@.queries.contains_key(*q_id),
            r is Ok ==> final(self)@ == (QueryStoreView {
                queries: old(self)@.queries.insert(*q_id, with_status(old(self)@.queries[*q_id], new_status)),
                ..old(self)@
            }),
            r is Err ==> r->Err_0 is InternalDbError && final(self)@ == old(self)@,
    {
        proof {
            self.queries.lemma_ids();
            lemma_views_insert(self.queries@, *q_id);
        }
        match self.queries.get_mut(q_id) {
            Some(q) => {
                q.update_status(new_status);
                Ok(())
            },
            None => Err(DbError::InternalDbError("no query with that id".to_string())),
        }
    }

    /// Whether query `query_id` is a COPY; `InternalDbError` if there is no
    /// such query.
    pub fn check_if_query_is_copy(&self, query_id: &u128) -> (r: Result<bool, DbError>)
        requires
            self.wf(),
        ensures
            r is Ok <==> self@.queries.contains_key(*query_id),
            r matches Ok(b) ==> b == (self@.queries[*query_id].query_definition is CopyQ),
            r is Err ==> r->Err_0 is InternalDbError,
    {
        let query = match self.queries.get(query_id) {
            Some(q) => q,
            None => {
                return Err(DbError::InternalDbError("query does not exist in QueryStore".to_string()));
            },
        };
        match query.query_def() {
            AllowedQuery::CopyQ(_) => Ok(true),
            AllowedQuery::SelectQ(_) => Ok(false),
        }
    }
}

} // verus!

//! Which query workers are free to take a query.
use vstd::prelude::*;
use crate::db::errors::DbError;

verus! {

/// The query workers, numbered from 0, each free or busy.
#[derive(Debug)]
pub struct WorkersPool {
    available: Vec<bool>,
}

impl View for WorkersPool {
    type V = Seq<bool>;

    /// For each worker, whether it is free.
    closed spec fn view(&self) -> Seq<bool> {
        self.available@
    }
}

/// Some worker is free.
pub open spec fn any_free(s: Seq<bool>) -> bool {
    exists|i: int| 0 <= i < s.len() && #[trigger] s[i]
}

impl WorkersPool {
    /// `n_workers` workers, all free.
    pub fn new(n_workers: usize) -> (r: WorkersPool)
        ensures
            r@.len() == n_workers,
            forall|i: int| 0 <= i < n_workers ==> #[trigger] r@[i],
    {
        let mut available: Vec<bool> = Vec::new();
        let mut i: usize = 0;
        while i < n_workers
            invariant
                i <= n_workers,
                available@.len() == i,
                forall|j: int| 0 <= j < i ==> #[trigger] available@[j],
            decreases n_workers - i,
        {
            available.push(true);
            i = i + 1;
        }
        WorkersPool { available }
    }

    /// Whether some worker is free.
    pub fn is_any_worker_available(&self) -> (r: bool)
        ensures
            r == any_free(self@),
    {
        let mut i: usize = 0;
        while i < self.available.len()
            invariant
                i <= self.available@.len(),
                forall|j: int| 0 <= j < i ==> !#[trigger] self.available@[j],
            decreases self.available@.len() - i,
        {
            if self.available[i] {
                return true;
            }
            i = i + 1;
        }
        false
    }

    /// Makes the free worker with the lowest number busy and returns its
    /// number; `None` if no worker is free.
    pub fn take_available_worker(&mut self) -> (r: Option<usize>)
        ensures
            r is None <==> !any_free(old(self)@),
            r is None ==> final(self)@ == old(self)@,
            r matches Some(id) ==> id < old(self)@.len() && old(self)@[id as int] && (forall|j: int| 0 <= j < id ==> !#[trigger] old(self)@[j])
                && final(self)@ == old(self)@.update(id as int, false),
    {
        let mut i: usize = 0;
        while i < self.available.len()
            invariant
                self@ == old(self)@,
                i <= self.available@.len(),
                forall|j: int| 0 <= j < i ==> !#[trigger] self.available@[j],
            decreases self.available@.len() - i,
        {
            if self.available[i] {
                self.available.set(i, false);
                return Some(i);
            }
            i = i + 1;
        }
        None
    }

    /// Makes worker `worker_id` free; `InternalDbError` if there is no such
    /// worker.
    pub fn free_worker(&mut self, worker_id: usize) -> (r: Result<(), DbError>)
        ensures
            r is Ok <==> worker_id < old(self)@.len(),
            r is Ok ==> final(self)@ == old(self)@.update(worker_id as int, true),
            r is Err ==> r->Err_0 is InternalDbError && final(self)@ == old(self)@,
    {
        if worker_id >= self.available.len() {
            return Err(DbError::InternalDbError("db worker with that id does not exist".to_string()));
        }
        self.available.set(worker_id, true);
        Ok(())
    }
}

} // verus!

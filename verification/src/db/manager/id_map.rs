//! Values by 128-bit id, kept in the order they were added.
use vstd::prelude::*;
use crate::db::storage::metadata::lemma_index_of_unique;

verus! {

/// The ids of a sequence of (id, value) entries.
pub open spec fn ids_of<V>(s: Seq<(u128, V)>) -> Seq<u128> {
    s.map_values(|e: (u128, V)| e.0)
}

/// Values by id; the ids are kept in the order they were added, each once.
#[derive(Debug)]
pub struct IdMap<V> {
    entries: Vec<(u128, V)>,
}

impl<V> IdMap<V> {
    /// The ids, in the order they were added.
    pub closed spec fn ids(&self) -> Seq<u128> {
        ids_of(self.entries@)
    }

    /// No id occurs twice.
    pub closed spec fn wf(&self) -> bool {
        self.ids().no_duplicates()
    }
}

impl<V> View for IdMap<V> {
    type V = Map<u128, V>;

    closed spec fn view(&self) -> Map<u128, V> {
        Map::new(|k: u128| self.ids().contains(k), |k: u128| self.entries@[self.ids().index_of(k)].1)
    }
}

impl<V> IdMap<V> {
    /// The ids are the keys of the map, each once.
    pub proof fn lemma_ids(&self)
        requires
            self.wf(),
        ensures
            self.ids().no_duplicates(),
            forall|k: u128| #[trigger] self@.contains_key(k) <==> self.ids().contains(k),
            self@.dom() == self.ids().to_set(),
            self@.dom().finite(),
            self@.len() == self.ids().len(),
    {
        assert(self@.dom() =~= self.ids().to_set());
        self.ids().unique_seq_to_set();
    }

    proof fn lemma_entry(&self, i: int)
        requires
            self.wf(),
            0 <= i < self.entries@.len(),
        ensures
            self.ids()[i] == self.entries@[i].0,
            self@.contains_key(self.entries@[i].0),
            self@[self.entries@[i].0] == self.entries@[i].1,
    {
        lemma_index_of_unique(self.ids(), i);
    }

    /// Nothing stored.
    pub fn new() -> (r: IdMap<V>)
        ensures
            r.wf(),
            r@ == Map::<u128, V>::empty(),
            r.ids() == Seq::<u128>::empty(),
    {
        let r = IdMap { entries: Vec::new() };
        assert(r.ids() =~= Seq::<u128>::empty());
        assert(r@ =~= Map::<u128, V>::empty());
        r
    }

    fn find(&self, id: u128) -> (r: Option<usize>)
        requires
            self.wf(),
        ensures
            match r {
                Some(i) => i < self.entries@.len() && self.entries@[i as int].0 == id && self.ids().index_of(id) == i,
                None => !self.ids().contains(id),
            },
    {
        let mut i: usize = 0;
        while i < self.entries.len()
            invariant
                self.wf(),
                i <= self.entries@.len(),
                forall|j: int| 0 <= j < i ==> self.entries@[j].0 != id,
            decreases self.entries@.len() - i,
        {
            if self.entries[i].0 == id {
                proof {
                    lemma_index_of_unique(self.ids(), i as int);
                }
                return Some(i);
            }
            i = i + 1;
        }
        proof {
            if self.ids().contains(id) {
                let j = choose|j: int| 0 <= j < self.ids().len() && self.ids()[j] == id;
                assert(self.entries@[j].0 == id);
            }
        }
        None
    }

    /// Number of ids stored.
    pub fn len(&self) -> (r: usize)
        requires
            self.wf(),
        ensures
            r == self@.len(),
            r == self.ids().len(),
    {
        proof {
            self.lemma_ids();
        }
        self.entries.len()
    }

    pub fn contains_key(&self, id: &u128) -> (r: bool)
        requires
            self.wf(),
        ensures
            r == self@.contains_key(*id),
    {
        proof {
            self.lemma_ids();
        }
        match self.find(*id) {
            Some(i) => {
                proof {
                    lemma_index_of_unique(self.ids(), i as int);
                }
                true
            },
            None => false,
        }
    }

    pub fn get(&self, id: &u128) -> (r: Option<&V>)
        requires
            self.wf(),
        ensures
            r is Some == self@.contains_key(*id),
            r matches Some(v) ==> *v == self@[*id],
    {
        match self.find(*id) {
            Some(i) => {
                proof {
                    self.lemma_entry(i as int);
                }
                Some(&self.entries[i].1)
            },
            None => None,
        }
    }

    /// The `i`-th entry in the order of [`IdMap::ids`].
    pub fn entry_at(&self, i: usize) -> (r: (u128, &V))
        requires
            self.wf(),
            i < self.ids().len(),
        ensures
            r.0 == self.ids()[i as int],
            self@.contains_key(r.0),
            *r.1 == self@[r.0],
    {
        proof {
            self.lemma_entry(i as int);
        }
        (self.entries[i].0, &self.entries[i].1)
    }

    /// Puts `value` under `id`, replacing the value there, if any, which is
    /// returned. A new id goes to the end of the order.
    pub fn insert(&mut self, id: u128, value: V) -> (r: Option<V>)
        requires
            old(self).wf(),
        ensures
            final(self).wf(),
            final(self)@ == old(self)@.insert(id, value),
            r is Some == old(self)@.contains_key(id),
            r matches Some(v) ==> v == old(self)@[id],
            final(self).ids() == if old(self)@.contains_key(id) {
                old(self).ids()
            } else {
                old(self).ids().push(id)
            },
    {
        let ghost val = value;
        match self.find(id) {
            Some(i) => {
                proof {
                    self.lemma_entry(i as int);
                }
                let (_, old_val) = self.entries.remove(i);
                self.entries.insert(i, (id, value));
                proof {
                    assert(self.ids() =~= old(self).ids());
                    assert forall|k: u128| #[trigger] self@.contains_key(k) == old(self)@.insert(id, val).contains_key(k) by {}
                    assert forall|k: u128| self@.contains_key(k) implies #[trigger] self@[k] == old(self)@.insert(id, val)[k] by {
                        let j = self.ids().index_of(k);
                        assert(self.ids().contains(k));
                        lemma_index_of_unique(self.ids(), j);
                        if k != id {
                            assert(j != i);
                            old(self).lemma_entry(j);
                        }
                    }
                    assert(self@ =~= old(self)@.insert(id, val));
                }
                Some(old_val)
            },
            None => {
                self.entries.push((id, value));
                proof {
                    assert(self.ids() =~= old(self).ids().push(id));
                    assert forall|k: u128| #[trigger] self@.contains_key(k) == old(self)@.insert(id, val).contains_key(k) by {
                        if old(self).ids().contains(k) {
                            let x = choose|x: int| 0 <= x < old(self).ids().len() && old(self).ids()[x] == k;
                            assert(self.ids()[x] == k);
                        }
                        if k == id {
                            assert(self.ids()[old(self).ids().len() as int] == id);
                        }
                    }
                    assert forall|k: u128| self@.contains_key(k) implies #[trigger] self@[k] == old(self)@.insert(id, val)[k] by {
                        if k == id {
                            self.lemma_entry(old(self).ids().len() as int);
                        } else {
                            let x = choose|x: int| 0 <= x < self.ids().len() && self.ids()[x] == k;
                            assert(x < old(self).ids().len());
                            self.lemma_entry(x);
                            old(self).lemma_entry(x);
                        }
                    }
                    assert(self@ =~= old(self)@.insert(id, val));
                }
                None
            },
        }
    }

    /// Removes the value under `id`, if any, and returns it; the order of
    /// the other ids is kept.
    pub fn remove(&mut self, id: &u128) -> (r: Option<V>)
        requires
            old(self).wf(),
        ensures
            final(self).wf(),
            final(self)@ == old(self)@.remove(*id),
            r is Some == old(self)@.contains_key(*id),
            r matches Some(v) ==> v == old(self)@[*id],
            final(self).ids() == if old(self)@.contains_key(*id) {
                old(self).ids().remove(old(self).ids().index_of(*id))
            } else {
                old(self).ids()
            },
    {
        match self.find(*id) {
            Some(i) => {
                proof {
                    self.lemma_entry(i as int);
                }
                let (_, v) = self.entries.remove(i);
                proof {
                    assert(self.ids() =~= old(self).ids().remove(i as int));
                    assert forall|a: int, b: int| 0 <= a < b < self.ids().len() implies self.ids()[a] != self.ids()[b] by {
                        let a2 = if a < i { a } else { a + 1 };
                        let b2 = if b < i { b } else { b + 1 };
                        assert(self.ids()[a] == old(self).ids()[a2]);
                        assert(self.ids()[b] == old(self).ids()[b2]);
                    }
                    assert forall|k: u128| #[trigger] self@.contains_key(k) == old(self)@.remove(*id).contains_key(k) by {
                        if self.ids().contains(k) {
                            let x = choose|x: int| 0 <= x < self.ids().len() && self.ids()[x] == k;
                            let x2 = if x < i { x } else { x + 1 };
                            assert(old(self).ids()[x2] == k);
                            assert(x2 != i);
                        }
                        if old(self).ids().contains(k) && k != *id {
                            let x = choose|x: int| 0 <= x < old(self).ids().len() && old(self).ids()[x] == k;
                            assert(x != i);
                            let x2 = if x < i { x } else { x - 1 };
                            assert(self.ids()[x2] == k);
                        }
                    }
                    assert forall|k: u128| self@.contains_key(k) implies #[trigger] self@[k] == old(self)@.remove(*id)[k] by {
                        let x = choose|x: int| 0 <= x < self.ids().len() && self.ids()[x] == k;
                        self.lemma_entry(x);
                        let x2 = if x < i { x } else { x + 1 };
                        old(self).lemma_entry(x2);
                    }
                    assert(self@ =~= old(self)@.remove(*id));
                }
                Some(v)
            },
            None => {
                proof {
                    assert(!old(self)@.contains_key(*id));
                    assert(self@ =~= old(self)@.remove(*id));
                }
                None
            },
        }
    }
}

impl<V> IdMap<V> {
    /// Replacing the value stored at `i` replaces the value under its id.
    proof fn lemma_replace_entry(a: IdMap<V>, b: IdMap<V>, i: int)
        requires
            a.wf(),
            0 <= i < a.entries@.len(),
            b.entries@ == a.entries@.update(i, (a.entries@[i].0, b.entries@[i].1)),
        ensures
            b.wf(),
            b.ids() == a.ids(),
            b@ == a@.insert(a.ids()[i], b.entries@[i].1),
    {
        assert(b.ids() =~= a.ids());
        a.lemma_entry(i);
        b.lemma_entry(i);
        assert forall|k: u128| #[trigger] b@.contains_key(k) == a@.insert(a.ids()[i], b.entries@[i].1).contains_key(k) by {}
        assert forall|k: u128| b@.contains_key(k) implies #[trigger] b@[k] == a@.insert(a.ids()[i], b.entries@[i].1)[k] by {
            let x = b.ids().index_of(k);
            assert(b.ids().contains(k));
            lemma_index_of_unique(b.ids(), x);
            a.lemma_entry(x);
            b.lemma_entry(x);
        }
        assert(b@ =~= a@.insert(a.ids()[i], b.entries@[i].1));
    }

    proof fn lemma_replace_any(a: IdMap<V>, i: int)
        requires
            a.wf(),
            0 <= i < a.entries@.len(),
        ensures
            forall|b: IdMap<V>|
                #![trigger b.wf()]
                #![trigger b.view()]
                b.entries@ == a.entries@.update(i, (a.entries@[i].0, b.entries@[i].1)) ==> b.wf() && b.ids() == a.ids()
                    && b@ == a@.insert(a.ids()[i], b.entries@[i].1),
    {
        assert forall|b: IdMap<V>| b.entries@ == a.entries@.update(i, (a.entries@[i].0, b.entries@[i].1)) implies b.wf()
            && b.ids() == a.ids() && b@ == a@.insert(a.ids()[i], b.entries@[i].1) by {
            IdMap::lemma_replace_entry(a, b, i);
        }
    }

    /// The value under `id`, to be changed in place.
    pub fn get_mut(&mut self, id: &u128) -> (r: Option<&mut V>)
        requires
            old(self).wf(),
        ensures
            r is Some == old(self)@.contains_key(*id),
            r is Some ==> *r.unwrap() == old(self)@[*id] && final(self).wf() && final(self).ids() == old(self).ids()
                && final(self)@ == old(self)@.insert(*id, *final(r.unwrap())),
            r is None ==> *final(self) == *old(self),
    {
        match self.find(*id) {
            Some(i) => {
                proof {
                    self.lemma_entry(i as int);
                    IdMap::lemma_replace_any(*self, i as int);
                }
                Some(&mut self.entries[i].1)
            },
            None => None,
        }
    }
}

} // verus!

//! Values by name, kept in the order the names were put in.
use vstd::prelude::*;
use crate::schemas::query::string_seq_view;

verus! {

/// Values by name, in the order the names were put in, each name once.
#[derive(Debug)]
pub struct NameMap<V> {
    names: Vec<String>,
    vals: Vec<V>,
}

impl<V> View for NameMap<V> {
    type V = Seq<(Seq<char>, V)>;

    /// Each name with its value, in order.
    closed spec fn view(&self) -> Seq<(Seq<char>, V)> {
        Seq::new(self.names@.len(), |i: int| (self.names@[i]@, self.vals@[i]))
    }
}

impl<V> NameMap<V> {
    pub closed spec fn wf(&self) -> bool {
        &&& self.names@.len() == self.vals@.len()
        &&& string_seq_view(self.names@).no_duplicates()
    }

    /// Nothing stored.
    pub fn new() -> (r: NameMap<V>)
        ensures
            r.wf(),
            r@ == Seq::<(Seq<char>, V)>::empty(),
    {
        let r = NameMap { names: Vec::new(), vals: Vec::new() };
        assert(string_seq_view(r.names@) =~= Seq::<Seq<char>>::empty());
        assert(r@ =~= Seq::<(Seq<char>, V)>::empty());
        r
    }

    /// Number of names.
    pub fn len(&self) -> (r: usize)
        requires
            self.wf(),
        ensures
            r == self@.len(),
    {
        self.names.len()
    }

    /// Puts `col` under `name`, replacing the value there, if any (it keeps
    /// its place); a new name goes last.
    pub fn insert(&mut self, name: String, col: V)
        requires
            old(self).wf(),
        ensures
            final(self).wf(),
            (exists|i: int| 0 <= i < old(self)@.len() && old(self)@[i].0 == name@) ==> exists|i: int|
                0 <= i < old(self)@.len() && old(self)@[i].0 == name@ && final(self)@ == old(self)@.update(i, (name@, col)),
            !(exists|i: int| 0 <= i < old(self)@.len() && old(self)@[i].0 == name@) ==> final(self)@ == old(self)@.push(
                (name@, col),
            ),
    {
        let ghost nv = name@;
        let ghost cv = col;
        let mut i: usize = 0;
        while i < self.names.len()
            invariant
                self.wf(),
                *self == *old(self),
                nv == name@,
                cv == col,
                i <= self.names@.len(),
                forall|j: int| 0 <= j < i ==> self.names@[j]@ != name@,
            decreases self.names@.len() - i,
        {
            if self.names[i] == name {
                let ghost old_cols = self.vals@;
                self.vals.set(i, col);
                proof {
                    assert(self.vals@ == old_cols.update(i as int, col));
                    assert(self.names@ == old(self).names@);
                    assert(old_cols == old(self).vals@);
                    assert(old(self)@[i as int].0 == nv);
                    assert forall|j: int| 0 <= j < self@.len() implies #[trigger] self@[j] == old(self)@.update(i as int, (nv, cv))[j] by {
                        if j == i {
                            assert(self.vals@[j] == col);
                        }
                    }
                    assert(self@ =~= old(self)@.update(i as int, (nv, cv)));
                }
                return;
            }
            i = i + 1;
        }
        self.names.push(name);
        self.vals.push(col);
        proof {
            assert(string_seq_view(self.names@) =~= string_seq_view(old(self).names@).push(nv));
            assert forall|a: int, b: int| 0 <= a < b < string_seq_view(self.names@).len() implies string_seq_view(self.names@)[a]
                != string_seq_view(self.names@)[b] by {
                if b == old(self).names@.len() {
                    assert(old(self).names@[a]@ != nv);
                } else {
                    assert(string_seq_view(old(self).names@)[a] != string_seq_view(old(self).names@)[b]);
                }
            }
            assert(self@ =~= old(self)@.push((nv, cv)));
        }
    }
}


impl<V> NameMap<V> {
    /// The `i`-th name and its value.
    pub fn entry_at(&self, i: usize) -> (r: (&String, &V))
        requires
            self.wf(),
            i < self@.len(),
        ensures
            r.0@ == self@[i as int].0,
            *r.1 == self@[i as int].1,
    {
        (&self.names[i], &self.vals[i])
    }

    /// The value under `name`, if any.
    pub fn get(&self, name: &str) -> (r: Option<&V>)
        requires
            self.wf(),
        ensures
            r is None <==> !(exists|i: int| 0 <= i < self@.len() && #[trigger] self@[i].0 == name@),
            r matches Some(v) ==> exists|i: int| 0 <= i < self@.len() && #[trigger] self@[i].0 == name@ && self@[i].1 == *v,
    {
        let key = name.to_owned();
        let mut i: usize = 0;
        while i < self.names.len()
            invariant
                self.wf(),
                key@ == name@,
                i <= self@.len(),
                forall|j: int| 0 <= j < i ==> #[trigger] self@[j].0 != name@,
            decreases self@.len() - i,
        {
            if self.names[i] == key {
                assert(self@[i as int].0 == name@);
                return Some(&self.vals[i]);
            }
            i = i + 1;
        }
        None
    }
}


impl<V> NameMap<V> {
    /// The place of `name`, if it is there.
    pub fn index_of(&self, name: &str) -> (r: Option<usize>)
        requires
            self.wf(),
        ensures
            r is None <==> !(exists|i: int| 0 <= i < self@.len() && #[trigger] self@[i].0 == name@),
            r matches Some(i) ==> i < self@.len() && self@[i as int].0 == name@,
    {
        let key = name.to_owned();
        let mut i: usize = 0;
        while i < self.names.len()
            invariant
                self.wf(),
                key@ == name@,
                i <= self@.len(),
                forall|j: int| 0 <= j < i ==> #[trigger] self@[j].0 != name@,
            decreases self@.len() - i,
        {
            if self.names[i] == key {
                assert(self@[i as int].0 == name@);
                return Some(i);
            }
            i = i + 1;
        }
        None
    }

    proof fn lemma_replace_value(a: NameMap<V>, i: int)
        requires
            a.wf(),
            0 <= i < a@.len(),
        ensures
            forall|b: NameMap<V>|
                #![trigger b.view()]
                b.names == a.names && b.vals@ == a.vals@.update(i, b.vals@[i]) ==> b.wf() && b@ == a@.update(
                    i,
                    (a@[i].0, b.vals@[i]),
                ),
    {
        assert forall|b: NameMap<V>| b.names == a.names && b.vals@ == a.vals@.update(i, b.vals@[i]) implies b.wf() && b@
            == a@.update(i, (a@[i].0, b.vals@[i])) by {
            assert(b@ =~= a@.update(i, (a@[i].0, b.vals@[i])));
        }
    }

    /// The value at place `i`, to be changed in place.
    pub fn value_mut_at(&mut self, i: usize) -> (r: &mut V)
        requires
            old(self).wf(),
            i < old(self)@.len(),
        ensures
            *r == old(self)@[i as int].1,
            final(self).wf(),
            final(self)@ == old(self)@.update(i as int, (old(self)@[i as int].0, *final(r))),
    {
        proof {
            NameMap::lemma_replace_value(*self, i as int);
        }
        &mut self.vals[i]
    }
}

impl<V> NameMap<V> {
    /// A name occurs at one place only.
    pub proof fn lemma_names_unique(&self, i: int, j: int)
        requires
            self.wf(),
            0 <= i < self@.len(),
            0 <= j < self@.len(),
            self@[i].0 == self@[j].0,
        ensures
            i == j,
    {
        if i != j {
            assert(string_seq_view(self.names@)[i] == self@[i].0);
            assert(string_seq_view(self.names@)[j] == self@[j].0);
        }
    }
}

} // verus!

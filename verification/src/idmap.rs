use vstd::prelude::*;

verus! {

/// Entity identifiers are plain 64-bit numbers handed out by the world.
pub type EntityId = u64;

/// Every id occurs at most once in the sequence of entries.
pub open spec fn ids_unique<V>(s: Seq<(EntityId, V)>) -> bool {
    forall|i: int, j: int| 0 <= i < j < s.len() ==> #[trigger] s[i].0 != #[trigger] s[j].0
}

/// The map that a sequence of entries denotes (a later entry wins, though with
/// unique ids there is nothing to win).
pub open spec fn entries_map<V>(s: Seq<(EntityId, V)>) -> Map<EntityId, V>
    decreases s.len(),
{
    if s.len() == 0 {
        Map::empty()
    } else {
        entries_map(s.drop_last()).insert(s.last().0, s.last().1)
    }
}

/// With unique ids, the map holds exactly the entries of the sequence, one key per entry.
pub proof fn lemma_entries_map<V>(s: Seq<(EntityId, V)>)
    requires
        ids_unique(s),
    ensures
        entries_map(s).dom().finite(),
        entries_map(s).dom().len() == s.len(),
        forall|i: int|
            #![trigger s[i]]
            0 <= i < s.len() ==> entries_map(s).contains_key(s[i].0) && entries_map(s)[s[i].0]
                == s[i].1,
        forall|k: EntityId| #[trigger]
            entries_map(s).contains_key(k) ==> exists|i: int| 0 <= i < s.len() && s[i].0 == k,
    decreases s.len(),
{
    if s.len() > 0 {
        let t = s.drop_last();
        assert(ids_unique(t)) by {
            assert forall|i: int, j: int| 0 <= i < j < t.len() implies #[trigger] t[i].0
                != #[trigger] t[j].0 by {
                assert(t[i] == s[i] && t[j] == s[j]);
            }
        }
        lemma_entries_map(t);
        let last = s.last();
        assert(!entries_map(t).contains_key(last.0)) by {
            if entries_map(t).contains_key(last.0) {
                let i = choose|i: int| 0 <= i < t.len() && t[i].0 == last.0;
                assert(s[i] == t[i]);
                assert(s[s.len() - 1] == last);
            }
        }
        assert forall|i: int| 0 <= i < s.len() implies entries_map(s).contains_key(s[i].0)
            && entries_map(s)[s[i].0] == s[i].1 by {
            if i < s.len() - 1 {
                assert(s[i] == t[i]);
                assert(s[i].0 != s[s.len() - 1].0);
            }
        }
        assert forall|k: EntityId| #[trigger]
            entries_map(s).contains_key(k) implies exists|i: int| 0 <= i < s.len() && s[i].0
            == k by {
            if k != last.0 {
                let i = choose|i: int| 0 <= i < t.len() && t[i].0 == k;
                assert(s[i] == t[i]);
            } else {
                assert(s[s.len() - 1].0 == k);
            }
        }
    }
}

/// A small map from entity ids to values, kept as a vector of entries in which
/// no id occurs twice. Lookups walk the entries; the order of the entries is the
/// order in which ids were first inserted.
///
/// The world's tables are of this type rather than `std::collections::HashMap`
/// because the world hands out mutable references into them (`get_mut`, and
/// one per entry in `query_mut`), and vstd specifies neither `get_mut` nor
/// `iter_mut`/`values_mut` of `HashMap`. The contracts that list a table leave
/// the order open, as a hash map's walk is.
pub struct IdMap<V> {
    entries: Vec<(EntityId, V)>,
}

impl<V> IdMap<V> {
    /// The map that this table denotes.
    pub closed spec fn view(&self) -> Map<EntityId, V> {
        entries_map(self.entries@)
    }

    /// The entries in their stored order.
    pub closed spec fn entries(&self) -> Seq<(EntityId, V)> {
        self.entries@
    }

    /// No id occurs twice.
    pub closed spec fn wf(&self) -> bool {
        ids_unique(self.entries@)
    }

    /// The stored order enumerates the map: one entry per key, each with its value.
    pub proof fn lemma_view(&self)
        requires
            self.wf(),
        ensures
            self@.dom().finite(),
            self@.dom().len() == self.entries().len(),
            ids_unique(self.entries()),
            forall|i: int|
                #![trigger self.entries()[i]]
                0 <= i < self.entries().len() ==> self@.contains_key(self.entries()[i].0)
                    && self@[self.entries()[i].0] == self.entries()[i].1,
            forall|k: EntityId| #[trigger]
                self@.contains_key(k) ==> exists|i: int|
                    0 <= i < self.entries().len() && self.entries()[i].0 == k,
    {
        lemma_entries_map(self.entries@);
    }

    pub fn new() -> (m: Self)
        ensures
            m.wf(),
            m@ == Map::<EntityId, V>::empty(),
            m.entries() == Seq::<(EntityId, V)>::empty(),
    {
        IdMap { entries: Vec::new() }
    }

    /// Number of entries.
    pub fn len(&self) -> (n: usize)
        requires
            self.wf(),
        ensures
            n == self@.dom().len(),
            n == self.entries().len(),
    {
        proof {
            self.lemma_view();
        }
        self.entries.len()
    }

    fn find(&self, id: EntityId) -> (r: Option<usize>)
        requires
            self.wf(),
        ensures
            match r {
                Some(i) => i < self.entries@.len() && self.entries@[i as int].0 == id,
                None => !self@.contains_key(id),
            },
    {
        let n = self.entries.len();
        let mut i: usize = 0;
        while i < n
            invariant
                n == self.entries@.len(),
                i <= n,
                forall|j: int| 0 <= j < i ==> self.entries@[j].0 != id,
            decreases n - i,
        {
            if self.entries[i].0 == id {
                return Some(i);
            }
            i = i + 1;
        }
        proof {
            self.lemma_view();
        }
        None
    }

    pub fn contains(&self, id: EntityId) -> (b: bool)
        requires
            self.wf(),
        ensures
            b == self@.contains_key(id),
    {
        proof {
            self.lemma_view();
        }
        match self.find(id) {
            Some(_) => true,
            None => false,
        }
    }

    pub fn get(&self, id: EntityId) -> (r: Option<&V>)
        requires
            self.wf(),
        ensures
            match r {
                Some(v) => self@.contains_key(id) && *v == self@[id],
                None => !self@.contains_key(id),
            },
    {
        proof {
            self.lemma_view();
        }
        match self.find(id) {
            Some(i) => Some(&self.entries[i].1),
            None => None,
        }
    }

    pub fn get_mut(&mut self, id: EntityId) -> (r: Option<&mut V>)
        requires
            old(self).wf(),
        ensures
            final(self).wf(),
            match r {
                Some(v) => {
                    &&& old(self)@.contains_key(id)
                    &&& *v == old(self)@[id]
                    &&& final(self)@ == old(self)@.insert(id, *final(v))
                    &&& final(self).entries().len() == old(self).entries().len()
                    &&& forall|j: int|
                        0 <= j < old(self).entries().len() ==> #[trigger] final(self).entries()[j].0
                            == old(self).entries()[j].0
                },
                None => !old(self)@.contains_key(id) && *final(self) == *old(self),
            },
    {
        proof {
            self.lemma_view();
        }
        match self.find(id) {
            Some(i) => {
                let ghost s0 = self.entries@;
                let e = &mut self.entries[i];
                let r = &mut e.1;
                proof {
                    let s1 = s0.update(i as int, (id, *final(r)));
                    assert(ids_unique(s1)) by {
                        assert forall|a: int, b: int| 0 <= a < b < s1.len() implies #[trigger] s1[a].0
                            != #[trigger] s1[b].0 by {
                            assert(s1[a].0 == s0[a].0 && s1[b].0 == s0[b].0);
                        }
                    }
                    lemma_entries_map(s0);
                    lemma_entries_map(s1);
                    assert(entries_map(s1) =~= entries_map(s0).insert(id, *final(r))) by {
                        assert forall|k: EntityId| #[trigger] entries_map(s1).contains_key(k) <==> entries_map(
                            s0,
                        ).insert(id, *final(r)).contains_key(k) by {
                            if entries_map(s1).contains_key(k) {
                                let j = choose|j: int| 0 <= j < s1.len() && s1[j].0 == k;
                                assert(s0[j].0 == k);
                            }
                            if entries_map(s0).contains_key(k) {
                                let j = choose|j: int| 0 <= j < s0.len() && s0[j].0 == k;
                                assert(s1[j].0 == k);
                            }
                            if k == id {
                                assert(s1[i as int].0 == k);
                            }
                        }
                        assert forall|k: EntityId| #[trigger]
                            entries_map(s1).contains_key(k) implies entries_map(s1)[k] == entries_map(
                            s0,
                        ).insert(id, *final(r))[k] by {
                            let j = choose|j: int| 0 <= j < s1.len() && s1[j].0 == k;
                            assert(s1[j] == s1[j]);
                            assert(s0[j] == s0[j]);
                            if j != i {
                                assert(s1[j] == s0[j]);
                            }
                        }
                    }
                }
                Some(r)
            },
            None => None,
        }
    }

    /// Puts `v` under `id`, replacing the value already there in place, or adding
    /// a new entry at the end. Returns whether `id` was present.
    pub fn insert(&mut self, id: EntityId, v: V) -> (was_present: bool)
        requires
            old(self).wf(),
        ensures
            final(self).wf(),
            final(self)@ == old(self)@.insert(id, v),
            was_present == old(self)@.contains_key(id),
    {
        proof {
            self.lemma_view();
        }
        match self.find(id) {
            Some(i) => {
                let ghost s0 = self.entries@;
                self.entries.set(i, (id, v));
                proof {
                    let s1 = self.entries@;
                    assert(s1 == s0.update(i as int, (id, v)));
                    assert(ids_unique(s1)) by {
                        assert forall|a: int, b: int| 0 <= a < b < s1.len() implies #[trigger] s1[a].0
                            != #[trigger] s1[b].0 by {
                            assert(s1[a].0 == s0[a].0 && s1[b].0 == s0[b].0);
                        }
                    }
                    lemma_entries_map(s0);
                    lemma_entries_map(s1);
                    assert(entries_map(s1) =~= entries_map(s0).insert(id, v)) by {
                        assert forall|k: EntityId| #[trigger] entries_map(s1).contains_key(k) <==> entries_map(
                            s0,
                        ).insert(id, v).contains_key(k) by {
                            if entries_map(s1).contains_key(k) {
                                let j = choose|j: int| 0 <= j < s1.len() && s1[j].0 == k;
                                assert(s0[j].0 == k);
                            }
                            if entries_map(s0).contains_key(k) {
                                let j = choose|j: int| 0 <= j < s0.len() && s0[j].0 == k;
                                assert(s1[j].0 == k);
                            }
                            if k == id {
                                assert(s1[i as int].0 == k);
                            }
                        }
                        assert forall|k: EntityId| #[trigger]
                            entries_map(s1).contains_key(k) implies entries_map(s1)[k]
                            == entries_map(s0).insert(id, v)[k] by {
                            let j = choose|j: int| 0 <= j < s1.len() && s1[j].0 == k;
                            assert(s1[j] == s1[j]);
                            assert(s0[j] == s0[j]);
                            if j != i {
                                assert(s1[j] == s0[j]);
                            }
                        }
                    }
                }
                true
            },
            None => {
                let ghost s0 = self.entries@;
                self.entries.push((id, v));
                proof {
                    let s1 = self.entries@;
                    assert(s1.drop_last() =~= s0);
                    lemma_entries_map(s0);
                    assert(ids_unique(s1)) by {
                        assert forall|a: int, b: int| 0 <= a < b < s1.len() implies #[trigger] s1[a].0
                            != #[trigger] s1[b].0 by {
                            if b == s1.len() - 1 {
                                assert(s1[a] == s0[a]);
                            } else {
                                assert(s1[a] == s0[a] && s1[b] == s0[b]);
                            }
                        }
                    }
                }
                false
            },
        }
    }

    /// Takes the entry of `id` out, keeping the order of the others.
    pub fn remove(&mut self, id: EntityId) -> (r: Option<V>)
        requires
            old(self).wf(),
        ensures
            final(self).wf(),
            final(self)@ == old(self)@.remove(id),
            match r {
                Some(v) => old(self)@.contains_key(id) && v == old(self)@[id],
                None => !old(self)@.contains_key(id),
            },
    {
        proof {
            self.lemma_view();
        }
        match self.find(id) {
            Some(i) => {
                let ghost s0 = self.entries@;
                let (_, v) = self.entries.remove(i);
                proof {
                    let s1 = self.entries@;
                    assert(s1 =~= s0.remove(i as int));
                    assert forall|j: int| 0 <= j < s1.len() implies #[trigger] s1[j] == (if j < i {
                        s0[j]
                    } else {
                        s0[j + 1]
                    }) by {}
                    assert(ids_unique(s1)) by {
                        assert forall|a: int, b: int| 0 <= a < b < s1.len() implies #[trigger] s1[a].0
                            != #[trigger] s1[b].0 by {
                            let a0 = if a < i { a } else { a + 1 };
                            let b0 = if b < i { b } else { b + 1 };
                            assert(s1[a] == s0[a0] && s1[b] == s0[b0]);
                        }
                    }
                    lemma_entries_map(s0);
                    lemma_entries_map(s1);
                    assert(entries_map(s1) =~= entries_map(s0).remove(id)) by {
                        assert forall|k: EntityId| #[trigger] entries_map(s1).contains_key(k) <==> entries_map(
                            s0,
                        ).remove(id).contains_key(k) by {
                            if entries_map(s1).contains_key(k) {
                                let j = choose|j: int| 0 <= j < s1.len() && s1[j].0 == k;
                                let j0 = if j < i { j } else { j + 1 };
                                assert(s1[j] == s0[j0]);
                                assert(s0[i as int].0 == id);
                            }
                            if entries_map(s0).contains_key(k) && k != id {
                                let j = choose|j: int| 0 <= j < s0.len() && s0[j].0 == k;
                                assert(j != i);
                                if j < i {
                                    assert(s1[j] == s0[j]);
                                } else {
                                    assert(s1[j - 1] == s0[j]);
                                }
                            }
                        }
                        assert forall|k: EntityId| #[trigger]
                            entries_map(s1).contains_key(k) implies entries_map(s1)[k]
                            == entries_map(s0).remove(id)[k] by {
                            let j = choose|j: int| 0 <= j < s1.len() && s1[j].0 == k;
                            let j0 = if j < i { j } else { j + 1 };
                            assert(s1[j] == s0[j0]);
                        }
                    }
                    assert(s0[i as int] == s0[i as int]);
                }
                Some(v)
            },
            None => {
                proof {
                    assert(self@ =~= self@.remove(id));
                }
                None
            },
        }
    }

    /// Borrows every entry: the id and a reference to its value, in stored order.
    pub fn iter_refs(&self) -> (r: Vec<(EntityId, &V)>)
        requires
            self.wf(),
        ensures
            r@.len() == self.entries().len(),
            forall|i: int|
                0 <= i < r@.len() ==> #[trigger] r@[i].0 == self.entries()[i].0 && *r@[i].1
                    == self.entries()[i].1,
    {
        let mut out: Vec<(EntityId, &V)> = Vec::new();
        let n = self.entries.len();
        let mut i: usize = 0;
        while i < n
            invariant
                n == self.entries@.len(),
                i <= n,
                out@.len() == i,
                forall|j: int|
                    0 <= j < i ==> #[trigger] out@[j].0 == self.entries@[j].0 && *out@[j].1
                        == self.entries@[j].1,
            decreases n - i,
        {
            let e = &self.entries[i];
            out.push((e.0, &e.1));
            i = i + 1;
        }
        out
    }

    /// Borrows every entry mutably, in stored order. Whatever is written through
    /// the returned references is what the table holds once they are released.
    pub fn iter_mut_refs(&mut self) -> (r: Vec<(EntityId, &mut V)>)
        requires
            old(self).wf(),
        ensures
            r@.len() == old(self).entries().len(),
            forall|i: int|
                0 <= i < r@.len() ==> #[trigger] r@[i].0 == old(self).entries()[i].0 && *r@[i].1
                    == old(self).entries()[i].1,
            final(self).wf(),
            final(self).entries().len() == old(self).entries().len(),
            forall|i: int|
                0 <= i < r@.len() ==> #[trigger] final(self).entries()[i] == (
                    old(self).entries()[i].0,
                    *final(r@[i].1),
                ),
            final(self)@.dom() == old(self)@.dom(),
            forall|i: int| 0 <= i < r@.len() ==> #[trigger] final(self)@[r@[i].0] == *final(r@[i].1),
    {

        let ghost s0 = self.entries@;
        let s = self.entries.as_mut_slice();
        let ghost fs = final(s)@;
        let r = borrow_all_mut(s);
        proof {
            assert(ids_unique(fs)) by {
                assert forall|a: int, b: int| 0 <= a < b < fs.len() implies #[trigger] fs[a].0
                    != #[trigger] fs[b].0 by {
                    assert(fs[a] == (s0[a].0, *final(r@[a].1)));
                    assert(fs[b] == (s0[b].0, *final(r@[b].1)));
                }
            }
            lemma_entries_map(s0);
            lemma_entries_map(fs);
            assert(entries_map(fs).dom() =~= entries_map(s0).dom()) by {
                assert forall|k: EntityId| #[trigger] entries_map(fs).contains_key(k) <==> entries_map(
                    s0,
                ).contains_key(k) by {
                    if entries_map(fs).contains_key(k) {
                        let j = choose|j: int| 0 <= j < fs.len() && fs[j].0 == k;
                        assert(fs[j] == (s0[j].0, *final(r@[j].1)));
                        assert(s0[j] == s0[j]);
                    }
                    if entries_map(s0).contains_key(k) {
                        let j = choose|j: int| 0 <= j < s0.len() && s0[j].0 == k;
                        assert(fs[j] == (s0[j].0, *final(r@[j].1)));
                    }
                }
            }
            assert forall|i: int| 0 <= i < r@.len() implies #[trigger] entries_map(fs)[r@[i].0]
                == *final(r@[i].1) by {
                assert(fs[i] == (s0[i].0, *final(r@[i].1)));
            }
        }
        r
    }
}

/// Splits a slice of entries into one mutable reference per value.
fn borrow_all_mut<'a, V>(s: &'a mut [(EntityId, V)]) -> (r: Vec<(EntityId, &'a mut V)>)
    ensures
        r@.len() == old(s)@.len(),
        forall|i: int|
            0 <= i < r@.len() ==> #[trigger] r@[i].0 == old(s)@[i].0 && *r@[i].1 == old(s)@[i].1,
        final(s)@.len() == old(s)@.len(),
        forall|i: int| 0 <= i < r@.len() ==> #[trigger] final(s)@[i] == (old(s)@[i].0, *final(r@[i].1)),
    decreases old(s)@.len(),
{
    if s.len() == 0 {
        return Vec::new();
    }
    let (head, tail) = s.split_at_mut(1);
    let mut rest = borrow_all_mut(tail);
    let first = &mut head[0];
    let id = first.0;
    let mut out: Vec<(EntityId, &'a mut V)> = Vec::new();
    out.push((id, &mut first.1));
    out.append(&mut rest);
    out
}

} // verus!

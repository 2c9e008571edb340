use vstd::prelude::*;

use crate::idmap::{EntityId, IdMap};

verus! {

/// A value that can be attached to an entity. Each component belongs to one
/// kind, and the world keeps one table per kind: adding a component to an
/// entity replaces the component of the same kind that the entity had.
pub trait Component {
    /// The kind of this component, as a number.
    spec fn kind_of(&self) -> u64;

    fn kind(&self) -> (k: u64)
        ensures
            k == self.kind_of(),
    ;
}

/// `r` lists every entry of `m` once: each id with a reference to its value.
pub open spec fn lists_exactly<C>(r: Seq<(EntityId, &C)>, m: Map<EntityId, C>) -> bool {
    &&& m.dom().finite()
    &&& r.len() == m.dom().len()
    &&& forall|i: int|
        0 <= i < r.len() ==> #[trigger] m.contains_key(r[i].0) && m[r[i].0] == *r[i].1
    &&& forall|i: int, j: int| 0 <= i < j < r.len() ==> #[trigger] r[i].0 != #[trigger] r[j].0
    &&& forall|k: EntityId| #[trigger]
        m.contains_key(k) ==> exists|i: int| 0 <= i < r.len() && r[i].0 == k
}

/// The entity-component store: a counter for fresh entity ids and, per
/// component kind, a table from entity ids to components.
pub struct EcsWorld<C> {
    next_id: EntityId,
    components: IdMap<IdMap<C>>,
}

impl<C> EcsWorld<C> {
    /// The id that the next `spawn` hands out.
    pub closed spec fn next_entity(&self) -> EntityId {
        self.next_id
    }

    /// The tables, by component kind. A kind is present once a component of it
    /// was added, and stays present (possibly empty) afterwards.
    pub closed spec fn tables(&self) -> Map<u64, Map<EntityId, C>> {
        Map::new(|k: u64| self.components@.contains_key(k), |k: u64| self.components@[k]@)
    }

    /// The table of one kind; empty where the kind has none.
    pub open spec fn table_of(&self, kind: u64) -> Map<EntityId, C> {
        if self.tables().contains_key(kind) {
            self.tables()[kind]
        } else {
            Map::empty()
        }
    }

    /// The component of kind `kind` that `entity` has, if any.
    pub open spec fn component(&self, kind: u64, entity: EntityId) -> Option<C> {
        if self.table_of(kind).contains_key(entity) {
            Some(self.table_of(kind)[entity])
        } else {
            None
        }
    }

    pub closed spec fn wf(&self) -> bool {
        &&& self.components.wf()
        &&& forall|k: u64| #[trigger]
            self.components@.contains_key(k) ==> self.components@[k].wf()
    }

    /// Every table is finite.
    pub proof fn lemma_tables_finite(&self, kind: u64)
        requires
            self.wf(),
        ensures
            self.table_of(kind).dom().finite(),
    {
        if self.components@.contains_key(kind) {
            self.components@[kind].lemma_view();
        }
    }

    pub fn new() -> (w: Self)
        ensures
            w.wf(),
            w.next_entity() == 0,
            w.tables() == Map::<u64, Map<EntityId, C>>::empty(),
    {
        let w = EcsWorld { next_id: 0, components: IdMap::new() };
        assert(w.tables() =~= Map::<u64, Map<EntityId, C>>::empty());
        w
    }

    /// Hands out the next entity id and moves the counter past it; the
    /// components are left alone.
    pub fn spawn(&mut self) -> (id: EntityId)
        requires
            old(self).wf(),
            old(self).next_entity() < u64::MAX,
        ensures
            final(self).wf(),
            id == old(self).next_entity(),
            final(self).next_entity() == old(self).next_entity() + 1,
            id < final(self).next_entity(),
            final(self).tables() == old(self).tables(),
            spawned(*old(self), *final(self), id),
    {
        let id = self.next_id;
        self.next_id = self.next_id + 1;
        id
    }

    /// The id that the next `spawn` hands out.
    pub fn next_entity_id(&self) -> (id: EntityId)
        ensures
            id == self.next_entity(),
    {
        self.next_id
    }

    /// Marks `id` as taken, as when an entity is restored with a known id: the
    /// next fresh id is past it.
    pub fn spawn_with_id(&mut self, id: EntityId)
        requires
            old(self).wf(),
            id < u64::MAX,
        ensures
            final(self).wf(),
            final(self).next_entity() == if id < old(self).next_entity() {
                old(self).next_entity()
            } else {
                (id + 1) as u64
            },
            final(self).tables() == old(self).tables(),
    {
        if id >= self.next_id {
            self.next_id = id + 1;
        }
    }

    /// Every component kind that has a table, in the order the tables were made.
    pub fn kinds(&self) -> (r: Vec<u64>)
        requires
            self.wf(),
        ensures
            r@.len() == self.tables().dom().len(),
            self.tables().dom().finite(),
            forall|i: int| 0 <= i < r@.len() ==> #[trigger] self.tables().contains_key(r@[i]),
            forall|i: int, j: int| 0 <= i < j < r@.len() ==> #[trigger] r@[i] != #[trigger] r@[j],
            forall|k: u64| #[trigger]
                self.tables().contains_key(k) ==> exists|i: int| 0 <= i < r@.len() && r@[i] == k,
    {
        let refs = self.components.iter_refs();
        let mut out: Vec<u64> = Vec::new();
        let n = refs.len();
        let mut i: usize = 0;
        proof {
            self.components.lemma_view();
            assert(self.tables().dom() =~= self.components@.dom());
        }
        while i < n
            invariant
                n == refs@.len(),
                refs@.len() == self.components.entries().len(),
                forall|j: int|
                    0 <= j < refs@.len() ==> #[trigger] refs@[j].0
                        == self.components.entries()[j].0,
                i <= n,
                out@.len() == i,
                forall|j: int| 0 <= j < i ==> #[trigger] out@[j] == self.components.entries()[j].0,
            decreases n - i,
        {
            out.push(refs[i].0);
            i = i + 1;
        }
        proof {
            let s = self.components.entries();
            assert forall|a: int| 0 <= a < out@.len() implies #[trigger] self.tables().contains_key(
                out@[a],
            ) by {
                assert(s[a] == s[a]);
            }
            assert forall|a: int, b: int| 0 <= a < b < out@.len() implies #[trigger] out@[a]
                != #[trigger] out@[b] by {
                assert(s[a].0 != s[b].0);
            }
            assert forall|k: u64| #[trigger]
                self.tables().contains_key(k) implies exists|a: int| 0 <= a < out@.len() && out@[a]
                == k by {
                assert(self.components@.contains_key(k));
                let a = choose|a: int| 0 <= a < s.len() && s[a].0 == k;
                assert(out@[a] == k);
            }
        }
        out
    }
}

impl<C: Component> EcsWorld<C> {
    /// Every stored component sits in the table of its own kind.
    pub open spec fn kinds_consistent(&self) -> bool {
        forall|k: u64, e: EntityId| #[trigger]
            self.table_of(k).contains_key(e) ==> self.table_of(k)[e].kind_of() == k
    }

    /// Attaches `component` to `entity`, in the table of the component's kind;
    /// a component of that kind that the entity had is replaced.
    pub fn add(&mut self, entity: EntityId, component: C)
        requires
            old(self).wf(),
        ensures
            final(self).wf(),
            final(self).next_entity() == old(self).next_entity(),
            final(self).tables() == old(self).tables().insert(
                component.kind_of(),
                old(self).table_of(component.kind_of()).insert(entity, component),
            ),
            final(self).component(component.kind_of(), entity) == Some(component),
            forall|k: u64, e: EntityId|
                (k != component.kind_of() || e != entity) ==> #[trigger] final(self).component(k, e)
                    == old(self).component(k, e),
            old(self).kinds_consistent() ==> final(self).kinds_consistent(),
            added(*old(self), *final(self), entity, component),
    {
        let ghost old_tables = self.tables();
        let ghost comp = component;
        let kind = component.kind();
        match self.components.get_mut(kind) {
            Some(t) => {
                t.insert(entity, component);
            },
            None => {
                let mut t: IdMap<C> = IdMap::new();
                t.insert(entity, component);
                self.components.insert(kind, t);
            },
        }
        proof {
            assert(self.tables() =~= old_tables.insert(
                kind,
                if old_tables.contains_key(kind) {
                    old_tables[kind]
                } else {
                    Map::empty()
                }.insert(entity, comp),
            ));
            if old(self).kinds_consistent() {
                assert forall|k: u64, e: EntityId| #[trigger]
                    self.table_of(k).contains_key(e) implies self.table_of(k)[e].kind_of() == k by {
                    if k != kind || e != entity {
                        assert(old(self).table_of(k).contains_key(e));
                    }
                }
            }
        }
    }

    /// The component of kind `kind` attached to `entity`.
    pub fn get(&self, kind: u64, entity: EntityId) -> (r: Option<&C>)
        requires
            self.wf(),
        ensures
            match r {
                Some(c) => self.component(kind, entity) == Some(*c),
                None => self.component(kind, entity) is None,
            },
    {
        match self.components.get(kind) {
            Some(t) => t.get(entity),
            None => None,
        }
    }

    /// Mutable access to the component of kind `kind` attached to `entity`;
    /// what is written through it is what the world holds afterwards, in the
    /// same table (so a value of another kind written there stays there).
    pub fn get_mut(&mut self, kind: u64, entity: EntityId) -> (r: Option<&mut C>)
        requires
            old(self).wf(),
        ensures
            final(self).wf(),
            final(self).next_entity() == old(self).next_entity(),
            match r {
                Some(c) => {
                    &&& old(self).component(kind, entity) == Some(*c)
                    &&& final(self).tables() == old(self).tables().insert(
                        kind,
                        old(self).tables()[kind].insert(entity, *final(c)),
                    )
                },
                None => {
                    &&& old(self).component(kind, entity) is None
                    &&& final(self).tables() == old(self).tables()
                },
            },
            r matches Some(c) ==> written(*old(self), *final(self), kind, entity, *final(c)),
    {
        match self.components.get_mut(kind) {
            Some(t) => {
                t.get_mut(entity)
            },
            None => None,
        }
    }

    /// Detaches the component of kind `kind` from `entity`; says whether there was one.
    pub fn remove(&mut self, kind: u64, entity: EntityId) -> (removed: bool)
        requires
            old(self).wf(),
        ensures
            final(self).wf(),
            final(self).next_entity() == old(self).next_entity(),
            removed == old(self).component(kind, entity) is Some,
            final(self).component(kind, entity) is None,
            forall|k: u64, e: EntityId|
                (k != kind || e != entity) ==> #[trigger] final(self).component(k, e) == old(
                    self).component(k, e),
            final(self).tables() == if old(self).tables().contains_key(kind) {
                old(self).tables().insert(kind, old(self).tables()[kind].remove(entity))
            } else {
                old(self).tables()
            },
            old(self).kinds_consistent() ==> final(self).kinds_consistent(),
            component_removed(*old(self), *final(self), kind, entity),
    {
        let ghost old_tables = self.tables();
        match self.components.get_mut(kind) {
            Some(t) => {
                let r = t.remove(entity);
                proof {
                    assert(self.tables() =~= old_tables.insert(kind, old_tables[kind].remove(entity)));
                    if old(self).kinds_consistent() {
                        assert forall|k: u64, e: EntityId| #[trigger]
                            self.table_of(k).contains_key(e) implies self.table_of(k)[e].kind_of() == k by {
                            assert(old(self).table_of(k).contains_key(e));
                        }
                    }
                }
                r.is_some()
            },
            None => false,
        }
    }

    /// Every component of kind `kind`, each with its entity, in table order.
    pub fn query(&self, kind: u64) -> (r: Vec<(EntityId, &C)>)
        requires
            self.wf(),
        ensures
            lists_exactly(r@, self.table_of(kind)),
    {
        match self.components.get(kind) {
            Some(t) => {
                let r = t.iter_refs();
                proof {
                    t.lemma_view();
                    let s = t.entries();
                    assert forall|i: int, j: int| 0 <= i < j < r@.len() implies #[trigger] r@[i].0
                        != #[trigger] r@[j].0 by {
                        assert(s[i].0 != s[j].0);
                    }
                    assert forall|i: int| 0 <= i < r@.len() implies #[trigger] t@.contains_key(
                        r@[i].0,
                    ) && t@[r@[i].0] == *r@[i].1 by {
                        assert(s[i] == s[i]);
                    }
                    assert forall|k: EntityId| #[trigger] t@.contains_key(k) implies exists|i: int|
                        0 <= i < r@.len() && r@[i].0 == k by {
                        let i = choose|i: int| 0 <= i < s.len() && s[i].0 == k;
                        assert(r@[i].0 == k);
                    }
                }
                r
            },
            None => {
                let r: Vec<(EntityId, &C)> = Vec::new();
                proof {
                    assert(self.table_of(kind).dom() =~= Set::<EntityId>::empty());
                }
                r
            },
        }
    }

    /// Mutable access to every component of kind `kind`, each with its entity,
    /// in table order. Once the references are released, the table holds the
    /// same entities with the values written through them.
    pub fn query_mut(&mut self, kind: u64) -> (r: Vec<(EntityId, &mut C)>)
        requires
            old(self).wf(),
        ensures
            final(self).wf(),
            final(self).next_entity() == old(self).next_entity(),
            r@.len() == old(self).table_of(kind).dom().len(),
            old(self).table_of(kind).dom().finite(),
            forall|i: int|
                0 <= i < r@.len() ==> #[trigger] old(self).table_of(kind).contains_key(r@[i].0)
                    && old(self).table_of(kind)[r@[i].0] == *r@[i].1,
            forall|i: int, j: int| 0 <= i < j < r@.len() ==> #[trigger] r@[i].0 != #[trigger] r@[j].0,
            forall|k: EntityId| #[trigger]
                old(self).table_of(kind).contains_key(k) ==> exists|i: int|
                    0 <= i < r@.len() && r@[i].0 == k,
            final(self).tables().dom() == old(self).tables().dom(),
            forall|k: u64| k != kind ==> #[trigger] final(self).table_of(k) == old(self).table_of(k),
            final(self).table_of(kind).dom() == old(self).table_of(kind).dom(),
            forall|i: int|
                0 <= i < r@.len() ==> #[trigger] final(self).table_of(kind)[r@[i].0] == *final(r@[i].1),
            forall|i: int|
                0 <= i < r@.len() ==> #[trigger] final(self).component(kind, r@[i].0) == Some(*final(r@[i].1)),
            forall|k: u64, e: EntityId|
                (k != kind || !old(self).table_of(kind).contains_key(e)) ==> #[trigger] final(self).component(k, e)
                    == old(self).component(k, e),
            written_through(*old(self), *final(self), kind, Seq::new(r@.len(), |i: int| (r@[i].0, *final(r@[i].1)))),
    {
        let ghost old_tables = self.tables();
        match self.components.get_mut(kind) {
            Some(t) => {
                proof {
                    t.lemma_view();
                }
                let ghost s0 = t.entries();
                let r = t.iter_mut_refs();
                proof {
                    assert forall|i: int, j: int| 0 <= i < j < r@.len() implies #[trigger] r@[i].0
                        != #[trigger] r@[j].0 by {
                        assert(s0[i].0 != s0[j].0);
                    }
                    assert forall|i: int| 0 <= i < r@.len() implies #[trigger] old_tables[kind].contains_key(
                        r@[i].0,
                    ) && old_tables[kind][r@[i].0] == *r@[i].1 by {
                        assert(s0[i] == s0[i]);
                    }
                    assert forall|k: EntityId| #[trigger] old_tables[kind].contains_key(k) implies exists|i: int|
                        0 <= i < r@.len() && r@[i].0 == k by {
                        let i = choose|i: int| 0 <= i < s0.len() && s0[i].0 == k;
                        assert(r@[i].0 == k);
                    }
                    let w = Seq::new(r@.len(), |i: int| (r@[i].0, *final(r@[i].1)));
                    assert forall|i: int, j: int| 0 <= i < j < w.len() implies #[trigger] w[i].0
                        != #[trigger] w[j].0 by {
                        assert(r@[i].0 != r@[j].0);
                    }
                    assert forall|k: EntityId| #[trigger] old_tables[kind].contains_key(k) implies exists|i: int|
                        0 <= i < w.len() && w[i].0 == k by {
                        let i = choose|i: int| 0 <= i < r@.len() && r@[i].0 == k;
                        assert(w[i].0 == k);
                    }
                }
                r
            },
            None => {
                let r: Vec<(EntityId, &mut C)> = Vec::new();
                proof {
                    assert(old(self).table_of(kind).dom() =~= Set::<EntityId>::empty());
                }
                r
            },
        }
    }

    /// Detaches every component of `id`, whatever its kind.
    pub fn despawn(&mut self, id: EntityId)
        requires
            old(self).wf(),
        ensures
            final(self).wf(),
            final(self).next_entity() == old(self).next_entity(),
            final(self).tables().dom() == old(self).tables().dom(),
            forall|k: u64| #[trigger]
                old(self).tables().contains_key(k) ==> final(self).tables()[k] == old(self).tables()[k].remove(id),
            forall|k: u64| #[trigger] final(self).component(k, id) is None,
            forall|k: u64, e: EntityId|
                e != id ==> #[trigger] final(self).component(k, e) == old(self).component(k, e),
            old(self).kinds_consistent() ==> final(self).kinds_consistent(),
            despawned(*old(self), *final(self), id),
    {
        let ghost old_tables = self.tables();
        let kinds = self.kinds();
        let n = kinds.len();
        let mut i: usize = 0;
        while i < n
            invariant
                self.wf(),
                self.next_entity() == old(self).next_entity(),
                old(self).kinds_consistent() ==> self.kinds_consistent(),
                n == kinds@.len(),
                i <= n,
                old_tables == old(self).tables(),
                forall|a: int| 0 <= a < n ==> #[trigger] old_tables.contains_key(kinds@[a]),
                forall|a: int, b: int| 0 <= a < b < n ==> #[trigger] kinds@[a] != #[trigger] kinds@[b],
                forall|k: u64| #[trigger]
                    old_tables.contains_key(k) ==> exists|a: int| 0 <= a < n && kinds@[a] == k,
                self.tables().dom() == old_tables.dom(),
                forall|a: int| 0 <= a < i ==> #[trigger] self.tables()[kinds@[a]]
                    == old_tables[kinds@[a]].remove(id),
                forall|a: int| i <= a < n ==> #[trigger] self.tables()[kinds@[a]]
                    == old_tables[kinds@[a]],
            decreases n - i,
        {
            let k = kinds[i];
            let ghost before = self.tables();
            self.remove(k, id);
            proof {
                assert(self.tables() == before.insert(k, before[k].remove(id)));
                assert forall|a: int| 0 <= a < i + 1 implies #[trigger] self.tables()[kinds@[a]]
                    == old_tables[kinds@[a]].remove(id) by {
                    if a < i {
                        assert(kinds@[a] != k);
                    }
                }
                assert forall|a: int| i + 1 <= a < n implies #[trigger] self.tables()[kinds@[a]]
                    == old_tables[kinds@[a]] by {
                    assert(kinds@[a] != kinds@[i as int]);
                }
                assert(self.tables().dom() =~= old_tables.dom());
            }
            i = i + 1;
        }
        proof {
            assert forall|k: u64| #[trigger] old_tables.contains_key(k) implies self.tables()[k]
                == old_tables[k].remove(id) by {
                let a = choose|a: int| 0 <= a < n && kinds@[a] == k;
                assert(self.tables()[kinds@[a]] == old_tables[kinds@[a]].remove(id));
            }
        }
    }
}

/// `after` is `before` after a spawn that handed out `id`: the counter's
/// value, which moves on by one; the tables are untouched.
pub open spec fn spawned<C>(before: EcsWorld<C>, after: EcsWorld<C>, id: EntityId) -> bool {
    &&& id == before.next_entity()
    &&& after.next_entity() == before.next_entity() + 1
    &&& after.tables() == before.tables()
}

/// `after` is `before` with `c` attached to `entity`, replacing what the
/// entity had of that kind; nothing else changes.
pub open spec fn added<C: Component>(before: EcsWorld<C>, after: EcsWorld<C>, entity: EntityId, c: C) -> bool {
    &&& after.next_entity() == before.next_entity()
    &&& after.component(c.kind_of(), entity) == Some(c)
    &&& forall|k: u64, e: EntityId|
        (k != c.kind_of() || e != entity) ==> #[trigger] after.component(k, e) == before.component(k, e)
}

/// `after` is `before` with `c` written over the component of kind `kind`
/// that `entity` had (through a mutable reference); nothing else changes.
pub open spec fn written<C>(before: EcsWorld<C>, after: EcsWorld<C>, kind: u64, entity: EntityId, c: C) -> bool {
    &&& after.next_entity() == before.next_entity()
    &&& before.component(kind, entity) is Some
    &&& after.component(kind, entity) == Some(c)
    &&& forall|k: u64, e: EntityId|
        (k != kind || e != entity) ==> #[trigger] after.component(k, e) == before.component(k, e)
}

/// `after` is `before` without the component of kind `kind` of `entity`;
/// nothing else changes.
pub open spec fn component_removed<C>(before: EcsWorld<C>, after: EcsWorld<C>, kind: u64, entity: EntityId) -> bool {
    &&& after.next_entity() == before.next_entity()
    &&& after.component(kind, entity) is None
    &&& forall|k: u64, e: EntityId|
        (k != kind || e != entity) ==> #[trigger] after.component(k, e) == before.component(k, e)
}

/// `after` is `before` without any component of `id`; nothing else changes.
pub open spec fn despawned<C>(before: EcsWorld<C>, after: EcsWorld<C>, id: EntityId) -> bool {
    &&& after.next_entity() == before.next_entity()
    &&& forall|k: u64| #[trigger] after.component(k, id) is None
    &&& forall|k: u64, e: EntityId| e != id ==> #[trigger] after.component(k, e) == before.component(k, e)
}

/// One call on a world, as the history laws see it.
pub enum WorldOp<C> {
    Spawn,
    Add(EntityId, C),
    Write(u64, EntityId, C),
    Remove(u64, EntityId),
    Despawn(EntityId),
}

/// `after` is what the call `op` makes of `before`, as its contract states.
pub open spec fn op_step<C: Component>(before: EcsWorld<C>, op: WorldOp<C>, after: EcsWorld<C>) -> bool {
    match op {
        WorldOp::Spawn => spawned(before, after, before.next_entity()),
        WorldOp::Add(entity, c) => added(before, after, entity, c),
        WorldOp::Write(kind, entity, c) => written(before, after, kind, entity, c),
        WorldOp::Remove(kind, entity) => component_removed(before, after, kind, entity),
        WorldOp::Despawn(entity) => despawned(before, after, entity),
    }
}

/// The component of kind `kind` of `entity` after the first `n` calls of
/// `ops`: what the last of them that touched it left (the component added or
/// written; none after a remove or a despawn), else `initial`.
pub open spec fn history_component<C: Component>(
    ops: Seq<WorldOp<C>>,
    n: int,
    kind: u64,
    entity: EntityId,
    initial: Option<C>,
) -> Option<C>
    decreases n,
{
    if n <= 0 {
        initial
    } else {
        let rest = history_component(ops, n - 1, kind, entity, initial);
        match ops[n - 1] {
            WorldOp::Spawn => rest,
            WorldOp::Add(e, c) => if e == entity && c.kind_of() == kind {
                Some(c)
            } else {
                rest
            },
            WorldOp::Write(k, e, c) => if k == kind && e == entity {
                Some(c)
            } else {
                rest
            },
            WorldOp::Remove(k, e) => if k == kind && e == entity {
                None
            } else {
                rest
            },
            WorldOp::Despawn(e) => if e == entity {
                None
            } else {
                rest
            },
        }
    }
}

/// The number of spawns among the first `n` calls of `ops`.
pub open spec fn spawn_count<C>(ops: Seq<WorldOp<C>>, n: int) -> int
    decreases n,
{
    if n <= 0 {
        0
    } else {
        spawn_count(ops, n - 1) + if ops[n - 1] is Spawn {
            1int
        } else {
            0int
        }
    }
}

proof fn lemma_history_prefix<C: Component>(worlds: Seq<EcsWorld<C>>, ops: Seq<WorldOp<C>>, n: int)
    requires
        worlds.len() == ops.len() + 1,
        forall|i: int| 0 <= i < ops.len() ==> #[trigger] op_step(worlds[i], ops[i], worlds[i + 1]),
        0 <= n <= ops.len(),
    ensures
        forall|k: u64, e: EntityId| #[trigger] worlds[n].component(k, e)
            == history_component(ops, n, k, e, worlds[0].component(k, e)),
        worlds[n].next_entity() == worlds[0].next_entity() + spawn_count(ops, n),
    decreases n,
{
    if n > 0 {
        lemma_history_prefix(worlds, ops, n - 1);
        let i = n - 1;
        assert(op_step(worlds[i], ops[i], worlds[i + 1]));
        assert(worlds[i + 1] == worlds[n]);
        assert forall|k: u64, e: EntityId| #[trigger] worlds[n].component(k, e)
            == history_component(ops, n, k, e, worlds[0].component(k, e)) by {
            assert(worlds[n - 1].component(k, e) == history_component(ops, n - 1, k, e, worlds[0].component(k, e)));
        }
    }
}

/// Over any history of calls (spawn, add, write through `get_mut` or
/// `query_mut`, remove, despawn), what `get` finds for an entity and a kind is
/// what the last call that touched them left: the component last added or
/// written, none after a remove or a despawn, and what the world first held
/// where no call touched them. The id counter has moved on by the number of
/// spawns.
pub proof fn law_component_history<C: Component>(worlds: Seq<EcsWorld<C>>, ops: Seq<WorldOp<C>>)
    requires
        worlds.len() == ops.len() + 1,
        forall|i: int| 0 <= i < ops.len() ==> #[trigger] op_step(worlds[i], ops[i], worlds[i + 1]),
    ensures
        forall|k: u64, e: EntityId| #[trigger] worlds.last().component(k, e)
            == history_component(ops, ops.len() as int, k, e, worlds[0].component(k, e)),
        worlds.last().next_entity() == worlds[0].next_entity() + spawn_count(ops, ops.len() as int),
{
    lemma_history_prefix(worlds, ops, ops.len() as int);
}

proof fn lemma_spawn_prefix<C>(worlds: Seq<EcsWorld<C>>, ids: Seq<EntityId>, n: int)
    requires
        worlds.len() == ids.len() + 1,
        worlds[0].next_entity() == 0,
        forall|i: int| 0 <= i < ids.len() ==> #[trigger] spawned(worlds[i], worlds[i + 1], ids[i]),
        0 <= n <= ids.len(),
    ensures
        worlds[n].next_entity() == n,
        forall|i: int| 0 <= i < n ==> ids[i] == i,
    decreases n,
{
    if n > 0 {
        lemma_spawn_prefix(worlds, ids, n - 1);
        let i = n - 1;
        assert(spawned(worlds[i], worlds[i + 1], ids[i]));
        assert(worlds[i + 1] == worlds[n]);
    }
}

/// Spawning `n` times on a new world hands out the ids 0, 1, 2, ... in call
/// order, so no two spawns hand out the same id.
pub proof fn law_spawn_sequence<C>(worlds: Seq<EcsWorld<C>>, ids: Seq<EntityId>)
    requires
        worlds.len() == ids.len() + 1,
        worlds[0].next_entity() == 0,
        forall|i: int| 0 <= i < ids.len() ==> #[trigger] spawned(worlds[i], worlds[i + 1], ids[i]),
    ensures
        forall|i: int| 0 <= i < ids.len() ==> ids[i] == i,
        forall|i: int, j: int| 0 <= i < j < ids.len() ==> ids[i] != ids[j],
        worlds.last().next_entity() == ids.len(),
{
    lemma_spawn_prefix(worlds, ids, ids.len() as int);
}

/// `after` is `before` once the values `writes` were written through the
/// references that `query_mut` gave out for `kind`: one write per entity of
/// that kind, no entity twice; each written value is what the table holds;
/// every other component is as it was.
pub open spec fn written_through<C>(before: EcsWorld<C>, after: EcsWorld<C>, kind: u64, writes: Seq<(EntityId, C)>) -> bool {
    &&& after.next_entity() == before.next_entity()
    &&& forall|i: int, j: int| 0 <= i < j < writes.len() ==> #[trigger] writes[i].0 != #[trigger] writes[j].0
    &&& forall|i: int| 0 <= i < writes.len() ==> #[trigger] before.table_of(kind).contains_key(writes[i].0)
    &&& forall|k: EntityId| #[trigger]
        before.table_of(kind).contains_key(k) ==> exists|i: int| 0 <= i < writes.len() && writes[i].0 == k
    &&& forall|i: int| 0 <= i < writes.len() ==> #[trigger] after.component(kind, writes[i].0) == Some(writes[i].1)
    &&& forall|k: u64, e: EntityId|
        (k != kind || !before.table_of(kind).contains_key(e)) ==> #[trigger] after.component(k, e)
            == before.component(k, e)
}

/// After `query_mut` on a kind, with `writes` the final value behind each
/// reference it gave out: `get` finds the value written under each entity of
/// that kind, and nothing else changed: the entities of the kind are the same,
/// every other entity has none, and every component of another kind is as it
/// was.
pub proof fn law_query_mut_write_through<C: Component>(
    before: EcsWorld<C>,
    after: EcsWorld<C>,
    kind: u64,
    writes: Seq<(EntityId, C)>,
)
    requires
        written_through(before, after, kind, writes),
    ensures
        forall|i: int| 0 <= i < writes.len() ==> #[trigger] after.component(kind, writes[i].0) == Some(writes[i].1),
        forall|e: EntityId| #[trigger]
            after.component(kind, e) == match choose_write(writes, e) {
                Some(v) => Some(v),
                None => before.component(kind, e),
            },
        forall|e: EntityId| #[trigger] after.component(kind, e) is Some <==> before.component(kind, e) is Some,
        forall|k: u64, e: EntityId| k != kind ==> #[trigger] after.component(k, e) == before.component(k, e),
{
    assert forall|e: EntityId| #[trigger]
        after.component(kind, e) == match choose_write(writes, e) {
            Some(v) => Some(v),
            None => before.component(kind, e),
        } by {
        if exists|i: int| 0 <= i < writes.len() && writes[i].0 == e {
            let i = choose|i: int| 0 <= i < writes.len() && writes[i].0 == e;
            assert(after.component(kind, writes[i].0) == Some(writes[i].1));
        } else if before.table_of(kind).contains_key(e) {
            let i = choose|i: int| 0 <= i < writes.len() && writes[i].0 == e;
        }
    }
    assert forall|e: EntityId| #[trigger] after.component(kind, e) is Some <==> before.component(kind, e) is Some by {
        if before.table_of(kind).contains_key(e) {
            let i = choose|i: int| 0 <= i < writes.len() && writes[i].0 == e;
            assert(after.component(kind, writes[i].0) == Some(writes[i].1));
        }
    }
}

/// The value written for `e`, where some write names it.
pub open spec fn choose_write<C>(writes: Seq<(EntityId, C)>, e: EntityId) -> Option<C> {
    if exists|i: int| 0 <= i < writes.len() && writes[i].0 == e {
        Some(writes[choose|i: int| 0 <= i < writes.len() && writes[i].0 == e].1)
    } else {
        None
    }
}

/// Adding a component to an entity that had none of its kind, then removing
/// that kind from the entity, leaves every component of the world as it was.
pub proof fn law_add_then_remove<C: Component>(
    w0: EcsWorld<C>,
    w1: EcsWorld<C>,
    w2: EcsWorld<C>,
    entity: EntityId,
    component: C,
)
    requires
        w0.component(component.kind_of(), entity) is None,
        w1.component(component.kind_of(), entity) == Some(component),
        forall|k: u64, e: EntityId|
            (k != component.kind_of() || e != entity) ==> #[trigger] w1.component(k, e)
                == w0.component(k, e),
        w2.component(component.kind_of(), entity) is None,
        forall|k: u64, e: EntityId|
            (k != component.kind_of() || e != entity) ==> #[trigger] w2.component(k, e)
                == w1.component(k, e),
    ensures
        forall|k: u64, e: EntityId| #[trigger] w2.component(k, e) == w0.component(k, e),
{
    assert forall|k: u64, e: EntityId| #[trigger] w2.component(k, e) == w0.component(k, e) by {
        if k != component.kind_of() || e != entity {
            assert(w2.component(k, e) == w1.component(k, e));
        }
    }
}

/// Ids handed out by two spawns are different: the counter only grows
/// between them, and each spawn takes the current value and moves past it.
pub proof fn law_spawned_ids_distinct<C>(
    before_first: EcsWorld<C>,
    after_first: EcsWorld<C>,
    before_second: EcsWorld<C>,
    first: EntityId,
    second: EntityId,
)
    requires
        first == before_first.next_entity(),
        after_first.next_entity() == before_first.next_entity() + 1,
        after_first.next_entity() <= before_second.next_entity(),
        second == before_second.next_entity(),
    ensures
        first < second,
{
}

/// A read-only view of the components of one kind in a world.
pub struct Query<'a, C> {
    world: &'a EcsWorld<C>,
    kind: u64,
}

impl<'a, C: Component> Query<'a, C> {
    pub closed spec fn world(&self) -> &'a EcsWorld<C> {
        self.world
    }

    pub closed spec fn kind(&self) -> u64 {
        self.kind
    }

    pub fn new(world: &'a EcsWorld<C>, kind: u64) -> (q: Self)
        ensures
            q.world() == world,
            q.kind() == kind,
    {
        Query { world, kind }
    }

    /// Every component of the query's kind, each with its entity.
    pub fn iter(&self) -> (r: Vec<(EntityId, &'a C)>)
        requires
            self.world().wf(),
        ensures
            lists_exactly(r@, self.world().table_of(self.kind())),
    {
        self.world.query(self.kind)
    }
}

} // verus!

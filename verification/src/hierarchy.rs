use vstd::prelude::*;

use crate::idmap::EntityId;
use crate::scene::{Scene, SceneComponent, TRANSFORM};

verus! {

/// The parent of `e`, as its transform names it.
pub open spec fn parent_of(s: Scene, e: EntityId) -> Option<EntityId> {
    match s.transform_of(e) {
        Some(t) => t.parent_id,
        None => None,
    }
}

/// `c` is a walk up the parent links from `id`, through entities that have
/// a transform, visiting none twice.
pub open spec fn is_parent_walk(s: Scene, id: EntityId, c: Seq<EntityId>) -> bool {
    &&& c.len() > 0 ==> c[0] == id
    &&& forall|k: int| 0 <= k < c.len() ==> #[trigger] s.transform_of(c[k]) is Some
    &&& forall|k: int| 0 <= k < c.len() - 1 ==> parent_of(s, #[trigger] c[k]) == Some(c[k + 1])
    &&& c.no_duplicates()
}

/// The walk `c` from `id` is complete: it is empty because `id` has no
/// transform, or its last entity has no parent, or a parent without a
/// transform (whose placement is the identity).
pub open spec fn walk_ends(s: Scene, id: EntityId, c: Seq<EntityId>) -> bool {
    if c.len() == 0 {
        s.transform_of(id) is None
    } else {
        match parent_of(s, c.last()) {
            None => true,
            Some(p) => s.transform_of(p) is None,
        }
    }
}

/// The walk `c` closes a cycle: the parent of its last entity is on it.
pub open spec fn walk_cycles(s: Scene, c: Seq<EntityId>) -> bool {
    &&& c.len() > 0
    &&& parent_of(s, c.last()) matches Some(p) && c.contains(p)
}

fn holds_id(v: &Vec<EntityId>, x: EntityId) -> (b: bool)
    ensures
        b == v@.contains(x),
{
    let mut i: usize = 0;
    while i < v.len()
        invariant
            i <= v@.len(),
            forall|k: int| 0 <= k < i ==> v@[k] != x,
        decreases v@.len() - i,
    {
        if v[i] == x {
            return true;
        }
        i = i + 1;
    }
    false
}

impl Scene {
    /// The entities whose transforms make up the world placement of `id`,
    /// from `id` up its parent links: the placement is the product of their
    /// transforms, the topmost first. `None` where the parent links run in a
    /// cycle, so that no placement exists.
    pub fn ancestor_chain(&self, id: EntityId) -> (r: Option<Vec<EntityId>>)
        requires
            self.wf(),
        ensures
            match r {
                Some(c) => is_parent_walk(*self, id, c@) && walk_ends(*self, id, c@),
                None => exists|c: Seq<EntityId>| is_parent_walk(*self, id, c) && walk_cycles(*self, c),
            },
    {
        proof {
            self.world.lemma_tables_finite(TRANSFORM);
        }
        let mut c: Vec<EntityId> = Vec::new();
        let mut cur = id;
        loop
            invariant
                self.wf(),
                self.entities().finite(),
                is_parent_walk(*self, id, c@),
                c@.len() == 0 ==> cur == id,
                c@.len() > 0 ==> parent_of(*self, c@.last()) == Some(cur),
                forall|k: int| 0 <= k < c@.len() ==> self.entities().contains(#[trigger] c@[k]),
                c@.len() <= self.entities().len(),
            decreases self.entities().len() - c@.len(),
        {
            let t = match self.world.get(TRANSFORM, cur) {
                Some(SceneComponent::Transform(t)) => t,
                _ => {
                    assert(self.transform_of(cur) is None);
                    return Some(c);
                },
            };
            if holds_id(&c, cur) {
                assert(walk_cycles(*self, c@));
                return None;
            }
            let ghost prev = c@;
            c.push(cur);
            proof {
                assert(self.entities().contains(cur));
                assert forall|k: int| 0 <= k < c@.len() - 1 implies parent_of(*self, #[trigger] c@[k]) == Some(c@[k + 1]) by {
                    if k < prev.len() - 1 {
                        assert(c@[k] == prev[k] && c@[k + 1] == prev[k + 1]);
                    } else {
                        assert(c@[k] == prev.last());
                    }
                }
                assert forall|k: int| 0 <= k < c@.len() implies #[trigger] self.transform_of(c@[k]) is Some by {
                    if k < prev.len() {
                        assert(c@[k] == prev[k]);
                    }
                }
                assert(c@.no_duplicates());
                c@.unique_seq_to_set();
                assert(c@.to_set().subset_of(self.entities()));
                vstd::set_lib::lemma_len_subset(c@.to_set(), self.entities());
            }
            match t.parent_id {
                Some(p) => {
                    cur = p;
                },
                None => {
                    return Some(c);
                },
            }
        }
    }
}

} // verus!

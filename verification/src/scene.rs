use vstd::prelude::*;

use crate::ecs::{Component, EcsWorld};
use crate::idmap::EntityId;

verus! {

/// Kind number of [`TransformComponent`].
pub const TRANSFORM: u64 = 0;

/// Kind number of [`MeshComponent`].
pub const MESH: u64 = 1;

/// Kind number of [`MaterialComponent`].
pub const MATERIAL: u64 = 2;

/// Kind number of [`LabelComponent`].
pub const LABEL: u64 = 3;

/// IEEE-754 bit pattern of the single-precision number 0.0.
pub const ZERO_BITS: u32 = 0x0000_0000;

/// IEEE-754 bit pattern of the single-precision number 0.5.
pub const HALF_BITS: u32 = 0x3F00_0000;

/// IEEE-754 bit pattern of the single-precision number 0.8 (rounded to nearest).
pub const POINT_EIGHT_BITS: u32 = 0x3F4C_CCCD;

/// IEEE-754 bit pattern of the single-precision number 1.0.
pub const ONE_BITS: u32 = 0x3F80_0000;

/// The primitive shapes a scene can spawn. A sphere carries its segment count.
#[derive(Clone, Copy, Debug, PartialEq, Eq, Structural)]
pub enum MeshType {
    Cube,
    Sphere(u32),
    Plane,
    Cylinder,
}

/// Placement of an entity. Numbers are single-precision floats held as their
/// IEEE-754 bit patterns (`f32::to_bits`); rotation is Euler angles in radians.
#[derive(Clone, Copy, Debug, PartialEq)]
pub struct TransformComponent {
    pub position: (u32, u32, u32),
    pub rotation: (u32, u32, u32),
    pub scale: (u32, u32, u32),
    pub parent_id: Option<EntityId>,
}

/// The identity placement: at the origin, unrotated, unit scale, no parent.
pub open spec fn identity_transform() -> TransformComponent {
    TransformComponent {
        position: (ZERO_BITS, ZERO_BITS, ZERO_BITS),
        rotation: (ZERO_BITS, ZERO_BITS, ZERO_BITS),
        scale: (ONE_BITS, ONE_BITS, ONE_BITS),
        parent_id: None,
    }
}

impl TransformComponent {
    pub fn identity() -> (t: Self)
        ensures
            t == identity_transform(),
    {
        TransformComponent {
            position: (ZERO_BITS, ZERO_BITS, ZERO_BITS),
            rotation: (ZERO_BITS, ZERO_BITS, ZERO_BITS),
            scale: (ONE_BITS, ONE_BITS, ONE_BITS),
            parent_id: None,
        }
    }
}

/// Surface parameters of an entity, as single-precision bit patterns.
#[derive(Clone, Copy, Debug, PartialEq)]
pub struct MaterialComponent {
    pub albedo: (u32, u32, u32),
    pub metallic: u32,
    pub roughness: u32,
    pub ambient_occlusion: u32,
}

/// The material a freshly spawned primitive gets: light grey, dielectric,
/// half rough, unoccluded.
pub open spec fn default_material() -> MaterialComponent {
    MaterialComponent {
        albedo: (POINT_EIGHT_BITS, POINT_EIGHT_BITS, POINT_EIGHT_BITS),
        metallic: ZERO_BITS,
        roughness: HALF_BITS,
        ambient_occlusion: ONE_BITS,
    }
}

impl MaterialComponent {
    pub fn primitive_default() -> (m: Self)
        ensures
            m == default_material(),
    {
        MaterialComponent {
            albedo: (POINT_EIGHT_BITS, POINT_EIGHT_BITS, POINT_EIGHT_BITS),
            metallic: ZERO_BITS,
            roughness: HALF_BITS,
            ambient_occlusion: ONE_BITS,
        }
    }
}

/// What shape an entity draws; `mesh_data` holds a serialized mesh when the
/// shape is not a primitive.
pub struct MeshComponent {
    pub mesh_type: Option<MeshType>,
    pub mesh_data: Option<String>,
}

impl MeshComponent {
    pub fn from_type(mesh_type: MeshType) -> (m: Self)
        ensures
            m.mesh_type == Some(mesh_type),
            m.mesh_data is None,
    {
        MeshComponent { mesh_type: Some(mesh_type), mesh_data: None }
    }
}

/// Display name and type tag of an entity.
pub struct LabelComponent {
    pub name: String,
    pub entity_type: String,
}

/// The components a scene attaches to its entities.
pub enum SceneComponent {
    Transform(TransformComponent),
    Mesh(MeshComponent),
    Material(MaterialComponent),
    Label(LabelComponent),
}

impl Component for SceneComponent {
    open spec fn kind_of(&self) -> u64 {
        match self {
            SceneComponent::Transform(_) => TRANSFORM,
            SceneComponent::Mesh(_) => MESH,
            SceneComponent::Material(_) => MATERIAL,
            SceneComponent::Label(_) => LABEL,
        }
    }

    fn kind(&self) -> (k: u64) {
        match self {
            SceneComponent::Transform(_) => TRANSFORM,
            SceneComponent::Mesh(_) => MESH,
            SceneComponent::Material(_) => MATERIAL,
            SceneComponent::Label(_) => LABEL,
        }
    }
}

/// `r` refers to the value `v` holds, or is `None` where `v` is.
pub open spec fn same_option<T>(r: Option<&T>, v: Option<T>) -> bool {
    match r {
        Some(x) => v == Some(*x),
        None => v is None,
    }
}

/// One entity as a saved scene file holds it: every entity with a transform,
/// with whatever label, mesh and material it has.
pub struct SavedEntity<'a> {
    pub entity_id: EntityId,
    pub transform: &'a TransformComponent,
    pub label: Option<&'a LabelComponent>,
    pub mesh: Option<&'a MeshComponent>,
    pub material: Option<&'a MaterialComponent>,
}

/// One entity as read back from a scene file. A scene file does not restore meshes.
pub struct LoadedEntity {
    pub entity_id: EntityId,
    pub transform: Option<TransformComponent>,
    pub label: Option<LabelComponent>,
    pub material: Option<MaterialComponent>,
}

/// One entity to draw: its shape and, where it has one, its material.
pub struct RenderItem<'a> {
    pub entity_id: EntityId,
    pub mesh_type: MeshType,
    pub material: Option<&'a MaterialComponent>,
}

/// `after` is `before` with a primitive of type `mesh_type` spawned as `id`:
/// the identity transform, a mesh of that type, the default material and an
/// empty label; every other component is as it was.
pub open spec fn spawned_primitive(before: Scene, after: Scene, mesh_type: MeshType, id: EntityId) -> bool {
    &&& after.wf()
    &&& after.world.next_entity() == before.world.next_entity() + 1
    &&& after.transform_of(id) == Some(identity_transform())
    &&& after.mesh_of(id) matches Some(m) && m.mesh_type == Some(mesh_type) && m.mesh_data is None
    &&& after.material_of(id) == Some(default_material())
    &&& after.label_of(id) matches Some(l) && l.name@.len() == 0 && l.entity_type@.len() == 0
    &&& forall|k: u64, e: EntityId|
        (e != id || (k != TRANSFORM && k != MESH && k != MATERIAL && k != LABEL)) ==> #[trigger] after.world.component(k, e)
            == before.world.component(k, e)
}

/// `after` is `before` with every component of `id` gone and nothing else changed.
pub open spec fn removed_entity(before: Scene, after: Scene, id: EntityId) -> bool {
    &&& after.wf()
    &&& after.world.next_entity() == before.world.next_entity()
    &&& forall|k: u64| #[trigger] after.world.component(k, id) is None
    &&& forall|k: u64, e: EntityId|
        e != id ==> #[trigger] after.world.component(k, e) == before.world.component(k, e)
}

/// Spawning a primitive makes its id one of the scene's entities and leaves
/// the other entities as they were.
pub proof fn law_spawn_adds_entity(before: Scene, after: Scene, mesh_type: MeshType, id: EntityId)
    requires
        spawned_primitive(before, after, mesh_type, id),
    ensures
        after.entities() == before.entities().insert(id),
{
    assert forall|e: EntityId| #[trigger] after.entities().contains(e) <==> before.entities().insert(
        id,
    ).contains(e) by {
        if e != id {
            assert(after.world.component(TRANSFORM, e) == before.world.component(TRANSFORM, e));
        }
    }
    assert(after.entities() =~= before.entities().insert(id));
}

/// Removing an entity takes exactly that id out of the scene's entities.
pub proof fn law_remove_drops_entity(before: Scene, after: Scene, id: EntityId)
    requires
        removed_entity(before, after, id),
    ensures
        after.entities() == before.entities().remove(id),
{
    assert forall|e: EntityId| #[trigger] after.entities().contains(e) <==> before.entities().remove(
        id,
    ).contains(e) by {
        assert(after.world.component(TRANSFORM, e) is None ==> !after.entities().contains(e));
        if e != id {
            assert(after.world.component(TRANSFORM, e) == before.world.component(TRANSFORM, e));
        } else {
            assert(after.world.component(TRANSFORM, e) is None);
        }
    }
    assert(after.entities() =~= before.entities().remove(id));
}

/// Spawning a primitive under an id that is not yet an entity raises the
/// entity count by one.
pub proof fn law_spawn_counts(before: Scene, after: Scene, mesh_type: MeshType, id: EntityId)
    requires
        before.wf(),
        spawned_primitive(before, after, mesh_type, id),
        !before.entities().contains(id),
    ensures
        after.entities().len() == before.entities().len() + 1,
{
    law_spawn_adds_entity(before, after, mesh_type, id);
    before.world.lemma_tables_finite(TRANSFORM);
}

/// A scene: a world of entities that have transforms, meshes, materials and labels.
pub struct Scene {
    pub world: EcsWorld<SceneComponent>,
}

impl Scene {
    /// The world is well formed and every component sits in its kind's table.
    pub open spec fn wf(&self) -> bool {
        &&& self.world.wf()
        &&& self.world.kinds_consistent()
    }

    pub open spec fn transform_of(&self, e: EntityId) -> Option<TransformComponent> {
        match self.world.component(TRANSFORM, e) {
            Some(SceneComponent::Transform(t)) => Some(t),
            _ => None,
        }
    }

    pub open spec fn mesh_of(&self, e: EntityId) -> Option<MeshComponent> {
        match self.world.component(MESH, e) {
            Some(SceneComponent::Mesh(m)) => Some(m),
            _ => None,
        }
    }

    pub open spec fn material_of(&self, e: EntityId) -> Option<MaterialComponent> {
        match self.world.component(MATERIAL, e) {
            Some(SceneComponent::Material(m)) => Some(m),
            _ => None,
        }
    }

    pub open spec fn label_of(&self, e: EntityId) -> Option<LabelComponent> {
        match self.world.component(LABEL, e) {
            Some(SceneComponent::Label(l)) => Some(l),
            _ => None,
        }
    }

    /// The entities of the scene: those that have a transform.
    pub open spec fn entities(&self) -> Set<EntityId> {
        self.world.table_of(TRANSFORM).dom()
    }

    pub fn new() -> (s: Self)
        ensures
            s.wf(),
            s.world.next_entity() == 0,
            s.world.tables() == Map::<u64, Map<EntityId, SceneComponent>>::empty(),
    {
        Scene { world: EcsWorld::new() }
    }

    /// Spawns an entity with the identity transform, a mesh of the given type,
    /// the default material and an empty label.
    pub fn spawn_primitive(&mut self, mesh_type: MeshType) -> (id: EntityId)
        requires
            old(self).wf(),
            old(self).world.next_entity() < u64::MAX,
        ensures
            id == old(self).world.next_entity(),
            spawned_primitive(*old(self), *final(self), mesh_type, id),
    {
        let id = self.world.spawn();
        assert(self.world.kinds_consistent()) by {
            assert forall|k: u64, e: EntityId| #[trigger]
                self.world.table_of(k).contains_key(e) implies self.world.table_of(k)[e].kind_of()
                == k by {
                assert(old(self).world.table_of(k).contains_key(e));
            }
        }
        self.world.add(id, SceneComponent::Transform(TransformComponent::identity()));
        self.world.add(id, SceneComponent::Mesh(MeshComponent::from_type(mesh_type)));
        self.world.add(id, SceneComponent::Material(MaterialComponent::primitive_default()));
        self.world.add(
            id,
            SceneComponent::Label(LabelComponent { name: String::new(), entity_type: String::new() }),
        );
        id
    }

    /// Removes every component of the entity.
    pub fn remove_entity(&mut self, id: EntityId)
        requires
            old(self).wf(),
        ensures
            removed_entity(*old(self), *final(self), id),
    {
        self.world.despawn(id);
    }

    /// Removes every entity that has a transform, with all its components;
    /// components of entities without a transform stay.
    pub fn clear_all(&mut self)
        requires
            old(self).wf(),
        ensures
            final(self).wf(),
            final(self).world.next_entity() == old(self).world.next_entity(),
            final(self).entities().is_empty(),
            forall|k: u64, e: EntityId| #[trigger]
                final(self).world.component(k, e) == if old(self).entities().contains(e) {
                    None
                } else {
                    old(self).world.component(k, e)
                },
    {
        let ids = self.entity_ids();
        let n = ids.len();
        let mut i: usize = 0;
        while i < n
            invariant
                self.wf(),
                self.world.next_entity() == old(self).world.next_entity(),
                n == ids@.len(),
                i <= n,
                forall|j: int| 0 <= j < n ==> #[trigger] old(self).entities().contains(ids@[j]),
                forall|e: EntityId| #[trigger]
                    old(self).entities().contains(e) ==> exists|j: int| 0 <= j < n && ids@[j] == e,
                forall|k: u64, e: EntityId| #[trigger]
                    self.world.component(k, e) == if (exists|j: int| 0 <= j < i && ids@[j] == e) {
                        None
                    } else {
                        old(self).world.component(k, e)
                    },
            decreases n - i,
        {
            let id = ids[i];
            let ghost before = self.world;
            self.world.despawn(id);
            proof {
                assert forall|k: u64, e: EntityId| #[trigger]
                    self.world.component(k, e) == if (exists|j: int| 0 <= j < i + 1 && ids@[j] == e) {
                        None
                    } else {
                        old(self).world.component(k, e)
                    } by {
                    if e == id {
                        assert(ids@[i as int] == e);
                        if before.tables().contains_key(k) {
                            assert(self.world.tables()[k] == before.tables()[k].remove(id));
                        }
                    } else {
                        if before.tables().contains_key(k) {
                            assert(self.world.tables()[k] == before.tables()[k].remove(id));
                        }
                        assert(self.world.component(k, e) == before.component(k, e));
                        if exists|j: int| 0 <= j < i + 1 && ids@[j] == e {
                            let j = choose|j: int| 0 <= j < i + 1 && ids@[j] == e;
                            assert(j != i);
                        }
                    }
                }
            }
            i = i + 1;
        }
        proof {
            assert forall|k: u64, e: EntityId| #[trigger]
                self.world.component(k, e) == if old(self).entities().contains(e) {
                    None
                } else {
                    old(self).world.component(k, e)
                } by {
                if old(self).entities().contains(e) {
                    let j = choose|j: int| 0 <= j < n && ids@[j] == e;
                    assert(exists|j: int| 0 <= j < n && ids@[j] == e);
                }
            }
            assert forall|e: EntityId| !#[trigger] self.entities().contains(e) by {
                assert(self.world.component(TRANSFORM, e) is None);
            }
            assert(self.entities() =~= Set::<EntityId>::empty());
        }
    }

    /// The ids of the scene's entities, each once.
    pub fn entity_ids(&self) -> (r: Vec<EntityId>)
        requires
            self.wf(),
        ensures
            r@.len() == self.entities().len(),
            self.entities().finite(),
            forall|j: int| 0 <= j < r@.len() ==> #[trigger] self.entities().contains(r@[j]),
            forall|a: int, b: int| 0 <= a < b < r@.len() ==> #[trigger] r@[a] != #[trigger] r@[b],
            forall|e: EntityId| #[trigger]
                self.entities().contains(e) ==> exists|j: int| 0 <= j < r@.len() && r@[j] == e,
    {
        let q = self.world.query(TRANSFORM);
        let mut out: Vec<EntityId> = Vec::new();
        let n = q.len();
        let mut i: usize = 0;
        while i < n
            invariant
                n == q@.len(),
                i <= n,
                out@.len() == i,
                forall|j: int| 0 <= j < i ==> #[trigger] out@[j] == q@[j].0,
            decreases n - i,
        {
            out.push(q[i].0);
            i = i + 1;
        }
        proof {
            assert forall|a: int, b: int| 0 <= a < b < out@.len() implies #[trigger] out@[a]
                != #[trigger] out@[b] by {
                assert(q@[a].0 != q@[b].0);
            }
            assert forall|j: int| 0 <= j < out@.len() implies #[trigger] self.entities().contains(
                out@[j],
            ) by {
                assert(self.world.table_of(TRANSFORM).contains_key(q@[j].0));
            }
            assert forall|e: EntityId| #[trigger] self.entities().contains(e) implies exists|j: int|
                0 <= j < out@.len() && out@[j] == e by {
                assert(self.world.table_of(TRANSFORM).contains_key(e));
                let j = choose|j: int| 0 <= j < q@.len() && q@[j].0 == e;
                assert(out@[j] == e);
            }
        }
        out
    }

    /// Every entity with its transform and whatever label, mesh and material
    /// it has: the contents of a saved scene.
    pub fn saved_entities(&self) -> (r: Vec<SavedEntity<'_>>)
        requires
            self.wf(),
        ensures
            self.entities().finite(),
            r@.len() == self.entities().len(),
            forall|i: int|
                #![trigger r@[i]]
                0 <= i < r@.len() ==> {
                    let e = r@[i].entity_id;
                    &&& self.entities().contains(e)
                    &&& self.transform_of(e) == Some(*r@[i].transform)
                    &&& same_option(r@[i].label, self.label_of(e))
                    &&& same_option(r@[i].mesh, self.mesh_of(e))
                    &&& same_option(r@[i].material, self.material_of(e))
                },
            forall|a: int, b: int|
                0 <= a < b < r@.len() ==> #[trigger] r@[a].entity_id != #[trigger] r@[b].entity_id,
            forall|e: EntityId| #[trigger]
                self.entities().contains(e) ==> exists|i: int|
                    0 <= i < r@.len() && r@[i].entity_id == e,
    {
        let q = self.world.query(TRANSFORM);
        let mut out: Vec<SavedEntity<'_>> = Vec::new();
        let n = q.len();
        let mut i: usize = 0;
        while i < n
            invariant
                self.wf(),
                n == q@.len(),
                crate::ecs::lists_exactly(q@, self.world.table_of(TRANSFORM)),
                i <= n,
                out@.len() == i,
                forall|j: int|
                    #![trigger out@[j]]
                    0 <= j < i ==> {
                        let e = out@[j].entity_id;
                        &&& e == q@[j].0
                        &&& self.transform_of(e) == Some(*out@[j].transform)
                        &&& same_option(out@[j].label, self.label_of(e))
                        &&& same_option(out@[j].mesh, self.mesh_of(e))
                        &&& same_option(out@[j].material, self.material_of(e))
                    },
            decreases n - i,
        {
            let id = q[i].0;
            let c = q[i].1;
            assert(self.world.table_of(TRANSFORM).contains_key(id));
            let transform = match c {
                SceneComponent::Transform(t) => t,
                _ => {
                    assert(false);
                    return out;
                },
            };
            let label = match self.world.get(LABEL, id) {
                Some(SceneComponent::Label(l)) => Some(l),
                _ => None,
            };
            let mesh = match self.world.get(MESH, id) {
                Some(SceneComponent::Mesh(m)) => Some(m),
                _ => None,
            };
            let material = match self.world.get(MATERIAL, id) {
                Some(SceneComponent::Material(m)) => Some(m),
                _ => None,
            };
            out.push(SavedEntity { entity_id: id, transform, label, mesh, material });
            i = i + 1;
        }
        proof {
            assert forall|a: int, b: int| 0 <= a < b < out@.len() implies #[trigger] out@[a].entity_id
                != #[trigger] out@[b].entity_id by {
                assert(out@[a].entity_id == q@[a].0);
                assert(out@[b].entity_id == q@[b].0);
            }
            assert forall|j: int| 0 <= j < out@.len() implies self.entities().contains(
                #[trigger] out@[j].entity_id,
            ) by {
                assert(out@[j].entity_id == q@[j].0);
                assert(self.world.table_of(TRANSFORM).contains_key(q@[j].0));
            }
            assert forall|e: EntityId| #[trigger] self.entities().contains(e) implies exists|j: int|
                0 <= j < out@.len() && out@[j].entity_id == e by {
                assert(self.world.table_of(TRANSFORM).contains_key(e));
                let j = choose|j: int| 0 <= j < q@.len() && q@[j].0 == e;
                assert(out@[j].entity_id == q@[j].0);
            }
        }
        out
    }

    /// Restores one entity read from a scene file: its id is marked as taken,
    /// and the transform, label and material it carries are attached.
    pub fn load_entity(&mut self, entity: LoadedEntity)
        requires
            old(self).wf(),
            entity.entity_id < u64::MAX,
        ensures
            final(self).wf(),
            final(self).world.next_entity() == if entity.entity_id < old(self).world.next_entity() {
                old(self).world.next_entity()
            } else {
                (entity.entity_id + 1) as u64
            },
            final(self).transform_of(entity.entity_id) == match entity.transform {
                Some(t) => Some(t),
                None => old(self).transform_of(entity.entity_id),
            },
            final(self).label_of(entity.entity_id) == match entity.label {
                Some(l) => Some(l),
                None => old(self).label_of(entity.entity_id),
            },
            final(self).material_of(entity.entity_id) == match entity.material {
                Some(m) => Some(m),
                None => old(self).material_of(entity.entity_id),
            },
            forall|k: u64, e: EntityId|
                (e != entity.entity_id || (k != TRANSFORM && k != MATERIAL && k != LABEL))
                    ==> #[trigger] final(self).world.component(k, e) == old(self).world.component(k, e),
    {
        let id = entity.entity_id;
        self.world.spawn_with_id(id);
        proof {
            assert forall|k: u64, e: EntityId| #[trigger]
                self.world.table_of(k).contains_key(e) implies self.world.table_of(k)[e].kind_of()
                == k by {
                assert(old(self).world.table_of(k).contains_key(e));
            }
        }
        if let Some(t) = entity.transform {
            self.world.add(id, SceneComponent::Transform(t));
        }
        if let Some(l) = entity.label {
            self.world.add(id, SceneComponent::Label(l));
        }
        if let Some(m) = entity.material {
            self.world.add(id, SceneComponent::Material(m));
        }
    }

    /// The entities to draw: each entity with a transform and a mesh of known
    /// type, with its mesh type and, where it has one, its material.
    pub fn render_items(&self) -> (r: Vec<RenderItem<'_>>)
        requires
            self.wf(),
        ensures
            forall|i: int|
                #![trigger r@[i]]
                0 <= i < r@.len() ==> {
                    let e = r@[i].entity_id;
                    &&& self.entities().contains(e)
                    &&& self.mesh_of(e) matches Some(m) && m.mesh_type == Some(r@[i].mesh_type)
                    &&& same_option(r@[i].material, self.material_of(e))
                },
            forall|a: int, b: int|
                0 <= a < b < r@.len() ==> #[trigger] r@[a].entity_id != #[trigger] r@[b].entity_id,
            forall|e: EntityId|
                #![trigger self.entities().contains(e), self.mesh_of(e)]
                self.entities().contains(e) && (self.mesh_of(e) matches Some(m) && m.mesh_type is Some)
                    ==> exists|i: int| 0 <= i < r@.len() && r@[i].entity_id == e,
    {
        let q = self.world.query(TRANSFORM);
        let mut out: Vec<RenderItem<'_>> = Vec::new();
        let ghost mut src: Seq<int> = Seq::empty();
        let n = q.len();
        let mut i: usize = 0;
        while i < n
            invariant
                self.wf(),
                n == q@.len(),
                crate::ecs::lists_exactly(q@, self.world.table_of(TRANSFORM)),
                i <= n,
                src.len() == out@.len(),
                forall|j: int| 0 <= j < src.len() ==> 0 <= #[trigger] src[j] < i,
                forall|a: int, b: int| 0 <= a < b < src.len() ==> #[trigger] src[a] < #[trigger] src[b],
                forall|j: int|
                    #![trigger out@[j]]
                    0 <= j < out@.len() ==> {
                        let e = out@[j].entity_id;
                        &&& e == q@[src[j]].0
                        &&& self.mesh_of(e) matches Some(m) && m.mesh_type == Some(out@[j].mesh_type)
                        &&& same_option(out@[j].material, self.material_of(e))
                    },
                forall|x: int|
                    #![trigger q@[x]]
                    0 <= x < i && (self.mesh_of(q@[x].0) matches Some(m) && m.mesh_type is Some)
                        ==> exists|j: int| 0 <= j < src.len() && src[j] == x,
            decreases n - i,
        {
            let id = q[i].0;
            let mesh_type = match self.world.get(MESH, id) {
                Some(SceneComponent::Mesh(m)) => m.mesh_type,
                _ => None,
            };
            if let Some(mt) = mesh_type {
                let material = match self.world.get(MATERIAL, id) {
                    Some(SceneComponent::Material(m)) => Some(m),
                    _ => None,
                };
                let ghost before = out@;
                let ghost src0 = src;
                out.push(RenderItem { entity_id: id, mesh_type: mt, material });
                proof {
                    src = src.push(i as int);
                    assert forall|j: int| #![trigger out@[j]] 0 <= j < out@.len() implies {
                        let e = out@[j].entity_id;
                        &&& e == q@[src[j]].0
                        &&& self.mesh_of(e) matches Some(m) && m.mesh_type == Some(out@[j].mesh_type)
                        &&& same_option(out@[j].material, self.material_of(e))
                    } by {
                        if j < before.len() {
                            assert(out@[j] == before[j]);
                            assert(src[j] == src0[j]);
                        }
                    }
                    assert forall|x: int|
                        #![trigger q@[x]]
                        0 <= x < i + 1 && (self.mesh_of(q@[x].0) matches Some(m) && m.mesh_type is Some)
                            implies exists|j: int| 0 <= j < src.len() && src[j] == x by {
                        if x < i {
                            let j = choose|j: int| 0 <= j < src0.len() && src0[j] == x;
                            assert(src[j] == src0[j]);
                        } else {
                            assert(src[src0.len() as int] == x);
                        }
                    }
                }
            }
            i = i + 1;
        }
        proof {
            assert forall|j: int| #![trigger out@[j]] 0 <= j < out@.len() implies self.entities().contains(
                out@[j].entity_id,
            ) by {
                assert(self.world.table_of(TRANSFORM).contains_key(q@[src[j]].0));
            }
            assert forall|a: int, b: int| 0 <= a < b < out@.len() implies #[trigger] out@[a].entity_id
                != #[trigger] out@[b].entity_id by {
                assert(out@[a].entity_id == q@[src[a]].0);
                assert(out@[b].entity_id == q@[src[b]].0);
                assert(src[a] < src[b]);
            }
            assert forall|e: EntityId|
                #![trigger self.entities().contains(e), self.mesh_of(e)]
                self.entities().contains(e) && (self.mesh_of(e) matches Some(m) && m.mesh_type is Some)
                    implies exists|j: int| 0 <= j < out@.len() && out@[j].entity_id == e by {
                assert(self.world.table_of(TRANSFORM).contains_key(e));
                let x = choose|x: int| 0 <= x < q@.len() && q@[x].0 == e;
                assert(q@[x] == q@[x]);
                let j = choose|j: int| 0 <= j < src.len() && src[j] == x;
                assert(out@[j].entity_id == q@[src[j]].0);
            }
        }
        out
    }

    /// Number of entities (those with a transform).
    pub fn entity_count(&self) -> (n: usize)
        requires
            self.wf(),
        ensures
            self.entities().finite(),
            n == self.entities().len(),
    {
        self.world.query(TRANSFORM).len()
    }
}

} // verus!

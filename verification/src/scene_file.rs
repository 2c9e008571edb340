use vstd::prelude::*;

use crate::idmap::EntityId;
use crate::json::{
    lookup, as_u64, json_as_u64, json_field, json_get, json_member, json_of_text, parse_json, JsonNumber, JsonValue,
};
use crate::precision::{
    double_bits_of_single_bits, double_bits_of_u64, lemma_widen_then_narrow, narrow_to_single_bits, single_bits_of_double_bits,
    u64_to_double_bits, widen_to_double_bits,
};
use crate::scene::{
    LabelComponent, LoadedEntity, MaterialComponent, MeshComponent, SavedEntity, Scene, TransformComponent,
    HALF_BITS, LABEL, MATERIAL, ONE_BITS, POINT_EIGHT_BITS, TRANSFORM, ZERO_BITS,
};

verus! {

/// A number of a scene file, narrowed to single precision; `default` where
/// the value is no number.
pub open spec fn number_bits(v: JsonValue, default: u32) -> u32 {
    match v {
        JsonValue::Number(n) => single_bits_of_double_bits(n.double_bits),
        _ => default,
    }
}

/// Three numbers of a scene file, from the first three items of an array;
/// `default` thrice where the value is no array.
pub open spec fn triple_bits(v: JsonValue, default: u32) -> (u32, u32, u32) {
    match v {
        JsonValue::Array(a) => (
            number_bits(a@[0], default),
            number_bits(a@[1], default),
            number_bits(a@[2], default),
        ),
        _ => (default, default, default),
    }
}

/// An array of a scene file has the three items that are read from it.
pub open spec fn triple_ready(v: JsonValue) -> bool {
    match v {
        JsonValue::Array(a) => a@.len() >= 3,
        _ => true,
    }
}

/// A string of a scene file; empty where the value is no string.
pub open spec fn text_or_empty(v: JsonValue) -> Seq<char> {
    match v {
        JsonValue::Str(s) => s@,
        _ => Seq::empty(),
    }
}

/// The transform a scene file gives an entity, if its `transform` is an
/// object: position and rotation default to 0, scale to 1.
pub open spec fn transform_section(ent: JsonValue) -> Option<TransformComponent> {
    let t = json_get(ent, "transform"@);
    if t is Object {
        Some(
            TransformComponent {
                position: triple_bits(json_get(t, "position"@), ZERO_BITS),
                rotation: triple_bits(json_get(t, "rotation"@), ZERO_BITS),
                scale: triple_bits(json_get(t, "scale"@), ONE_BITS),
                parent_id: json_as_u64(json_get(t, "parent_id"@)),
            },
        )
    } else {
        None
    }
}

/// The material a scene file gives an entity, if its `material` is an
/// object: albedo defaults to 0.8, metallic to 0, roughness to 0.5 and
/// ambient occlusion to 1.
pub open spec fn material_section(ent: JsonValue) -> Option<MaterialComponent> {
    let m = json_get(ent, "material"@);
    if m is Object {
        Some(
            MaterialComponent {
                albedo: triple_bits(json_get(m, "albedo"@), POINT_EIGHT_BITS),
                metallic: number_bits(json_get(m, "metallic"@), ZERO_BITS),
                roughness: number_bits(json_get(m, "roughness"@), HALF_BITS),
                ambient_occlusion: number_bits(json_get(m, "ambient_occlusion"@), ONE_BITS),
            },
        )
    } else {
        None
    }
}

/// The label (name, type) a scene file gives an entity, if its `label` is an
/// object; each text defaults to empty.
pub open spec fn label_section(ent: JsonValue) -> Option<(Seq<char>, Seq<char>)> {
    let l = json_get(ent, "label"@);
    if l is Object {
        Some((text_or_empty(json_get(l, "name"@)), text_or_empty(json_get(l, "entity_type"@))))
    } else {
        None
    }
}

/// A label seen by its texts.
pub open spec fn label_text(l: Option<LabelComponent>) -> Option<(Seq<char>, Seq<char>)> {
    match l {
        Some(l) => Some((l.name@, l.entity_type@)),
        None => None,
    }
}

/// The id of an entity of a scene file: its `entity_id`, where that is a
/// non-negative integer below `u64::MAX` (the id counter must be able to move
/// past it).
pub open spec fn entity_id_of(ent: JsonValue) -> Option<EntityId> {
    match json_as_u64(json_get(ent, "entity_id"@)) {
        Some(id) => if id < u64::MAX {
            Some(id)
        } else {
            None
        },
        None => None,
    }
}

/// Each section an entity has holds the members that are read from it, and
/// each array among them the three items that are read.
pub open spec fn entity_ready(ent: JsonValue) -> bool {
    let t = json_get(ent, "transform"@);
    let l = json_get(ent, "label"@);
    let m = json_get(ent, "material"@);
    &&& t is Object ==> {
        &&& json_member(t, "position"@) is Some
        &&& json_member(t, "rotation"@) is Some
        &&& json_member(t, "scale"@) is Some
        &&& json_member(t, "parent_id"@) is Some
        &&& triple_ready(json_get(t, "position"@))
        &&& triple_ready(json_get(t, "rotation"@))
        &&& triple_ready(json_get(t, "scale"@))
    }
    &&& l is Object ==> {
        &&& json_member(l, "name"@) is Some
        &&& json_member(l, "entity_type"@) is Some
    }
    &&& m is Object ==> {
        &&& json_member(m, "albedo"@) is Some
        &&& json_member(m, "metallic"@) is Some
        &&& json_member(m, "roughness"@) is Some
        &&& json_member(m, "ambient_occlusion"@) is Some
        &&& triple_ready(json_get(m, "albedo"@))
    }
}

/// A number of a scene file, as [`number_bits`].
fn number_of(v: &JsonValue, default: u32) -> (r: u32)
    ensures
        r == number_bits(*v, default),
{
    match v {
        JsonValue::Number(n) => narrow_to_single_bits(n.double_bits),
        _ => default,
    }
}

/// The member `key` of an object read as three numbers, as [`triple_bits`].
fn member_triple(obj: &JsonValue, key: &str, default: u32) -> (r: (u32, u32, u32))
    requires
        triple_ready(json_get(*obj, key@)),
    ensures
        r == triple_bits(json_get(*obj, key@), default),
{
    match json_field(obj, key) {
        Some(JsonValue::Array(a)) => (
            number_of(&a[0], default),
            number_of(&a[1], default),
            number_of(&a[2], default),
        ),
        _ => (default, default, default),
    }
}

/// The member `key` of an object read as one number, as [`number_bits`].
fn member_number(obj: &JsonValue, key: &str, default: u32) -> (r: u32)
    ensures
        r == number_bits(json_get(*obj, key@), default),
{
    match json_field(obj, key) {
        Some(v) => number_of(v, default),
        None => default,
    }
}

/// The member `key` of an object read as a string, as [`text_or_empty`].
fn member_text(obj: &JsonValue, key: &str) -> (r: String)
    ensures
        r@ == text_or_empty(json_get(*obj, key@)),
{
    match json_field(obj, key) {
        Some(JsonValue::Str(s)) => s.clone(),
        _ => String::new(),
    }
}

/// The id of an entity of a scene file, as [`entity_id_of`].
pub fn entity_id_value(ent: &JsonValue) -> (r: Option<EntityId>)
    ensures
        r == entity_id_of(*ent),
{
    let id = match json_field(ent, "entity_id") {
        Some(v) => as_u64(v),
        None => None,
    };
    match id {
        Some(id) => if id < u64::MAX {
            Some(id)
        } else {
            None
        },
        None => None,
    }
}

/// Whether the member `key` of an object is ready to be read as three
/// numbers, as [`triple_ready`].
fn member_triple_ready(obj: &JsonValue, key: &str) -> (b: bool)
    ensures
        b == triple_ready(json_get(*obj, key@)),
{
    match json_field(obj, key) {
        Some(JsonValue::Array(a)) => a.len() >= 3,
        _ => true,
    }
}

/// Whether an entity is ready to be read, as [`entity_ready`].
pub fn entity_is_ready(ent: &JsonValue) -> (b: bool)
    ensures
        b == entity_ready(*ent),
{
    let transform_ok = match json_field(ent, "transform") {
        Some(t) => match t {
            JsonValue::Object(_) => {
                json_field(t, "position").is_some() && json_field(t, "rotation").is_some()
                    && json_field(t, "scale").is_some() && json_field(t, "parent_id").is_some()
                    && member_triple_ready(t, "position") && member_triple_ready(t, "rotation")
                    && member_triple_ready(t, "scale")
            },
            _ => true,
        },
        None => true,
    };
    let label_ok = match json_field(ent, "label") {
        Some(l) => match l {
            JsonValue::Object(_) => json_field(l, "name").is_some() && json_field(
                l,
                "entity_type",
            ).is_some(),
            _ => true,
        },
        None => true,
    };
    let material_ok = match json_field(ent, "material") {
        Some(m) => match m {
            JsonValue::Object(_) => {
                json_field(m, "albedo").is_some() && json_field(m, "metallic").is_some()
                    && json_field(m, "roughness").is_some() && json_field(
                    m,
                    "ambient_occlusion",
                ).is_some() && member_triple_ready(m, "albedo")
            },
            _ => true,
        },
        None => true,
    };
    transform_ok && label_ok && material_ok
}

/// Reads one entity of a scene file: `None` where its id is not valid, else
/// the id with the sections it has.
pub fn loaded_entity_of(ent: &JsonValue) -> (r: Option<LoadedEntity>)
    requires
        entity_id_of(*ent) is Some ==> entity_ready(*ent),
    ensures
        r is None <==> entity_id_of(*ent) is None,
        r matches Some(e) ==> {
            &&& Some(e.entity_id) == entity_id_of(*ent)
            &&& e.transform == transform_section(*ent)
            &&& e.material == material_section(*ent)
            &&& label_text(e.label) == label_section(*ent)
        },
{
    let id = match entity_id_value(ent) {
        Some(id) => id,
        None => return None,
    };
    let transform = match json_field(ent, "transform") {
        Some(t) => match t {
            JsonValue::Object(_) => Some(
                TransformComponent {
                    position: member_triple(t, "position", ZERO_BITS),
                    rotation: member_triple(t, "rotation", ZERO_BITS),
                    scale: member_triple(t, "scale", ONE_BITS),
                    parent_id: match json_field(t, "parent_id") {
                        Some(p) => as_u64(p),
                        None => None,
                    },
                },
            ),
            _ => None,
        },
        None => None,
    };
    let label = match json_field(ent, "label") {
        Some(l) => match l {
            JsonValue::Object(_) => Some(
                LabelComponent { name: member_text(l, "name"), entity_type: member_text(l, "entity_type") },
            ),
            _ => None,
        },
        None => None,
    };
    let material = match json_field(ent, "material") {
        Some(m) => match m {
            JsonValue::Object(_) => Some(
                MaterialComponent {
                    albedo: member_triple(m, "albedo", POINT_EIGHT_BITS),
                    metallic: member_number(m, "metallic", ZERO_BITS),
                    roughness: member_number(m, "roughness", HALF_BITS),
                    ambient_occlusion: member_number(m, "ambient_occlusion", ONE_BITS),
                },
            ),
            _ => None,
        },
        None => None,
    };
    Some(LoadedEntity { entity_id: id, transform, label, material })
}

/// The position of the first entity without a valid id, from position `i`
/// on; the length where there is none.
pub open spec fn first_bad_from(es: Seq<JsonValue>, i: int) -> int
    decreases es.len() - i,
{
    if i < 0 || i >= es.len() {
        es.len() as int
    } else if entity_id_of(es[i]) is None {
        i
    } else {
        first_bad_from(es, i + 1)
    }
}

/// How many entities a scene file loads before the first invalid id.
pub open spec fn first_bad(es: Seq<JsonValue>) -> int {
    first_bad_from(es, 0)
}

proof fn lemma_first_bad_from(es: Seq<JsonValue>, i: int)
    requires
        0 <= i <= es.len(),
    ensures
        i <= first_bad_from(es, i) <= es.len(),
    decreases es.len() - i,
{
    if i < es.len() && entity_id_of(es[i]) is Some {
        lemma_first_bad_from(es, i + 1);
    }
}

/// The entities that a scene file loads are ready to be read. (Where one is
/// not, reading it would look up a member or an array item that is missing.)
pub open spec fn scene_ready(data: JsonValue) -> bool {
    match json_get(data, "entities"@) {
        JsonValue::Array(es) => forall|j: int| 0 <= j < first_bad(es@) ==> #[trigger] entity_ready(es@[j]),
        _ => true,
    }
}

/// The transform of `e` after the first `n` entities of a scene file are
/// loaded: that of the last of them with id `e` and a transform, else `before`.
pub open spec fn last_transform(
    es: Seq<JsonValue>,
    n: int,
    e: EntityId,
    before: Option<TransformComponent>,
) -> Option<TransformComponent>
    decreases n,
{
    if n <= 0 {
        before
    } else if entity_id_of(es[n - 1]) == Some(e) && transform_section(es[n - 1]) is Some {
        transform_section(es[n - 1])
    } else {
        last_transform(es, n - 1, e, before)
    }
}

/// The material of `e` after the first `n` entities of a scene file are
/// loaded: that of the last of them with id `e` and a material, else `before`.
pub open spec fn last_material(
    es: Seq<JsonValue>,
    n: int,
    e: EntityId,
    before: Option<MaterialComponent>,
) -> Option<MaterialComponent>
    decreases n,
{
    if n <= 0 {
        before
    } else if entity_id_of(es[n - 1]) == Some(e) && material_section(es[n - 1]) is Some {
        material_section(es[n - 1])
    } else {
        last_material(es, n - 1, e, before)
    }
}

/// The label texts of `e` after the first `n` entities of a scene file are
/// loaded: those of the last of them with id `e` and a label, else `before`.
pub open spec fn last_label(
    es: Seq<JsonValue>,
    n: int,
    e: EntityId,
    before: Option<(Seq<char>, Seq<char>)>,
) -> Option<(Seq<char>, Seq<char>)>
    decreases n,
{
    if n <= 0 {
        before
    } else if entity_id_of(es[n - 1]) == Some(e) && label_section(es[n - 1]) is Some {
        label_section(es[n - 1])
    } else {
        last_label(es, n - 1, e, before)
    }
}

/// The id counter after the first `n` entities of a scene file are loaded:
/// past every id among them, and never lowered.
pub open spec fn next_after(es: Seq<JsonValue>, n: int, before: int) -> int
    decreases n,
{
    if n <= 0 {
        before
    } else {
        let prev = next_after(es, n - 1, before);
        match entity_id_of(es[n - 1]) {
            Some(id) => if id < prev {
                prev
            } else {
                id + 1
            },
            None => prev,
        }
    }
}

/// `after` is `before` with the first `n` entities of a scene file loaded, in
/// order: ids marked as taken, and each transform, material and label they
/// carry attached (a later entity with the same id overrides an earlier
/// one); meshes and everything else stay as they were.
pub open spec fn loaded_prefix(before: Scene, after: Scene, es: Seq<JsonValue>, n: int) -> bool {
    &&& after.world.next_entity() == next_after(es, n, before.world.next_entity() as int)
    &&& forall|e: EntityId| #[trigger]
        after.transform_of(e) == last_transform(es, n, e, before.transform_of(e))
    &&& forall|e: EntityId| #[trigger]
        after.material_of(e) == last_material(es, n, e, before.material_of(e))
    &&& forall|e: EntityId| #[trigger]
        label_text(after.label_of(e)) == last_label(es, n, e, label_text(before.label_of(e)))
    &&& forall|k: u64, e: EntityId|
        k != TRANSFORM && k != MATERIAL && k != LABEL ==> #[trigger] after.world.component(k, e)
            == before.world.component(k, e)
}

/// What loading the scene document `data` into `before` gives: where
/// `entities` is no array, the error "No entities in scene" and no change;
/// else the entities before the first invalid id are loaded, and the result
/// is the error "Invalid entity_id" exactly when there is such an id.
pub open spec fn scene_loaded(before: Scene, after: Scene, data: JsonValue, r: Result<(), String>) -> bool {
    match json_get(data, "entities"@) {
        JsonValue::Array(es) => {
            &&& loaded_prefix(before, after, es@, first_bad(es@))
            &&& (r is Ok <==> first_bad(es@) == es@.len())
            &&& (r matches Err(m) ==> m@ == "Invalid entity_id"@)
        },
        _ => {
            &&& after == before
            &&& r matches Err(m) && m@ == "No entities in scene"@
        },
    }
}

/// Whether a scene document is ready to be loaded, as [`scene_ready`].
pub fn scene_is_ready(data: &JsonValue) -> (b: bool)
    ensures
        b == scene_ready(*data),
{
    match json_field(data, "entities") {
        Some(JsonValue::Array(es)) => {
            let n = es.len();
            let mut i: usize = 0;
            while i < n
                invariant
                    n == es@.len(),
                    i <= n,
                    json_get(*data, "entities"@) == JsonValue::Array(*es),
                    first_bad(es@) == first_bad_from(es@, i as int),
                    forall|j: int| 0 <= j < i ==> #[trigger] entity_ready(es@[j]),
                decreases n - i,
            {
                proof {
                    lemma_first_bad_from(es@, i as int);
                }
                if entity_id_value(&es[i]).is_none() {
                    return true;
                }
                if !entity_is_ready(&es[i]) {
                    proof {
                        lemma_first_bad_from(es@, i + 1);
                        let listed = json_get(*data, "entities"@)->Array_0;
                        assert(listed@ == es@);
                        assert(!entity_ready(listed@[i as int]));
                    }
                    return false;
                }
                i = i + 1;
            }
            true
        },
        _ => true,
    }
}

impl Scene {
    /// Loads a parsed scene document into the scene, entity by entity, as
    /// [`scene_loaded`] says.
    pub fn load_scene_json(&mut self, data: &JsonValue) -> (r: Result<(), String>)
        requires
            old(self).wf(),
            scene_ready(*data),
        ensures
            final(self).wf(),
            scene_loaded(*old(self), *final(self), *data, r),
    {
        let es = match json_field(data, "entities") {
            Some(JsonValue::Array(es)) => es,
            _ => return Err(String::from_str("No entities in scene")),
        };
        let ghost before = *self;
        let n = es.len();
        let mut i: usize = 0;
        while i < n
            invariant
                n == es@.len(),
                i <= n,
                self.wf(),
                before == *old(self),
                json_get(*data, "entities"@) == JsonValue::Array(*es),
                first_bad(es@) == first_bad_from(es@, i as int),
                forall|j: int| 0 <= j < first_bad(es@) ==> #[trigger] entity_ready(es@[j]),
                loaded_prefix(before, *self, es@, i as int),
            decreases n - i,
        {
            proof {
                lemma_first_bad_from(es@, i as int);
                if entity_id_of(es@[i as int]) is Some {
                    lemma_first_bad_from(es@, i + 1);
                }
            }
            let loaded = loaded_entity_of(&es[i]);
            match loaded {
                None => {
                    return Err(String::from_str("Invalid entity_id"));
                },
                Some(le) => {
                    let ghost mid = *self;
                    let ghost id = le.entity_id;
                    self.load_entity(le);
                    proof {
                        let ip = i as int + 1;
                        assert forall|e: EntityId| #[trigger]
                            self.transform_of(e) == last_transform(es@, ip, e, before.transform_of(e)) by {
                            assert(mid.transform_of(e) == last_transform(es@, i as int, e, before.transform_of(e)));
                            if e != id {
                                assert(self.world.component(TRANSFORM, e) == mid.world.component(TRANSFORM, e));
                            }
                        }
                        assert forall|e: EntityId| #[trigger]
                            self.material_of(e) == last_material(es@, ip, e, before.material_of(e)) by {
                            assert(mid.material_of(e) == last_material(es@, i as int, e, before.material_of(e)));
                            if e != id {
                                assert(self.world.component(MATERIAL, e) == mid.world.component(MATERIAL, e));
                            }
                        }
                        assert forall|e: EntityId| #[trigger]
                            label_text(self.label_of(e)) == last_label(es@, ip, e, label_text(before.label_of(e))) by {
                            assert(label_text(mid.label_of(e)) == last_label(es@, i as int, e, label_text(before.label_of(e))));
                            if e != id {
                                assert(self.world.component(LABEL, e) == mid.world.component(LABEL, e));
                            }
                        }
                        assert forall|k: u64, e: EntityId|
                            k != TRANSFORM && k != MATERIAL && k != LABEL implies #[trigger] self.world.component(k, e)
                                == before.world.component(k, e) by {
                            assert(mid.world.component(k, e) == before.world.component(k, e));
                        }
                    }
                },
            }
            i = i + 1;
        }
        Ok(())
    }

    /// Loads a scene from the text of a scene file. A text that is not JSON
    /// gives the parser's error and no change; a document that is not ready to
    /// be loaded ([`scene_ready`]) gives `None` and no change; any other gives
    /// what [`Scene::load_scene_json`] gives.
    pub fn load_scene_text(&mut self, text: &str) -> (r: Option<Result<(), String>>)
        requires
            old(self).wf(),
        ensures
            final(self).wf(),
            match json_of_text(text@) {
                None => r matches Some(Err(_)) && *final(self) == *old(self),
                Some(data) => if scene_ready(data) {
                    r matches Some(res) && scene_loaded(*old(self), *final(self), data, res)
                } else {
                    r is None && *final(self) == *old(self)
                },
            },
    {
        let data = match parse_json(text) {
            Ok(d) => d,
            Err(e) => return Some(Err(e)),
        };
        if !scene_is_ready(&data) {
            return None;
        }
        Some(self.load_scene_json(&data))
    }
}

/// A single-precision number as a saved scene writes it: the same value as
/// a double, or `null` where it is infinite or NaN (JSON has no such number).
pub open spec fn number_value(b: u32) -> JsonValue {
    if (b >> 23u32) & 0xff == 0xff {
        JsonValue::Null
    } else {
        JsonValue::Number(JsonNumber { as_u64: None, as_i64: None, double_bits: double_bits_of_single_bits(b) })
    }
}

/// An id as a saved scene writes it: a non-negative integer.
pub open spec fn id_value(n: u64) -> JsonValue {
    JsonValue::Number(
        JsonNumber {
            as_u64: Some(n),
            as_i64: if n <= i64::MAX {
                Some(n as i64)
            } else {
                None
            },
            double_bits: double_bits_of_u64(n),
        },
    )
}

/// `v` is the array of the three numbers of `t`.
pub open spec fn is_triple_value(v: JsonValue, t: (u32, u32, u32)) -> bool {
    match v {
        JsonValue::Array(a) => {
            &&& a@.len() == 3
            &&& a@[0] == number_value(t.0)
            &&& a@[1] == number_value(t.1)
            &&& a@[2] == number_value(t.2)
        },
        _ => false,
    }
}

/// `v` is a string with the text `text`.
pub open spec fn is_text_value(v: JsonValue, text: Seq<char>) -> bool {
    v matches JsonValue::Str(s) && s@ == text
}

/// `v` is an object without members.
pub open spec fn is_empty_object(v: JsonValue) -> bool {
    v matches JsonValue::Object(f) && f@.len() == 0
}

/// `v` is the saved transform `t`: position, rotation, scale and parent id, in that order.
pub open spec fn is_transform_value(v: JsonValue, t: TransformComponent) -> bool {
    match v {
        JsonValue::Object(f) => {
            &&& f@.len() == 4
            &&& f@[0].0@ == "position"@ && is_triple_value(f@[0].1, t.position)
            &&& f@[1].0@ == "rotation"@ && is_triple_value(f@[1].1, t.rotation)
            &&& f@[2].0@ == "scale"@ && is_triple_value(f@[2].1, t.scale)
            &&& f@[3].0@ == "parent_id"@ && f@[3].1 == match t.parent_id {
                Some(p) => id_value(p),
                None => JsonValue::Null,
            }
        },
        _ => false,
    }
}

/// `v` is the saved label: name and type, or an empty object where there is none.
pub open spec fn is_label_value(v: JsonValue, l: Option<LabelComponent>) -> bool {
    match l {
        Some(l) => match v {
            JsonValue::Object(f) => {
                &&& f@.len() == 2
                &&& f@[0].0@ == "name"@ && is_text_value(f@[0].1, l.name@)
                &&& f@[1].0@ == "entity_type"@ && is_text_value(f@[1].1, l.entity_type@)
            },
            _ => false,
        },
        None => is_empty_object(v),
    }
}

/// `v` is the saved mesh: its serialized data (`null` where it has none), or
/// an empty object where there is no mesh.
pub open spec fn is_mesh_value(v: JsonValue, m: Option<MeshComponent>) -> bool {
    match m {
        Some(m) => match v {
            JsonValue::Object(f) => {
                &&& f@.len() == 1
                &&& f@[0].0@ == "mesh_data"@
                &&& match m.mesh_data {
                    Some(d) => is_text_value(f@[0].1, d@),
                    None => f@[0].1 == JsonValue::Null,
                }
            },
            _ => false,
        },
        None => is_empty_object(v),
    }
}

/// `v` is the saved material: albedo, metallic, roughness and ambient
/// occlusion, or an empty object where there is none.
pub open spec fn is_material_value(v: JsonValue, m: Option<MaterialComponent>) -> bool {
    match m {
        Some(m) => match v {
            JsonValue::Object(f) => {
                &&& f@.len() == 4
                &&& f@[0].0@ == "albedo"@ && is_triple_value(f@[0].1, m.albedo)
                &&& f@[1].0@ == "metallic"@ && f@[1].1 == number_value(m.metallic)
                &&& f@[2].0@ == "roughness"@ && f@[2].1 == number_value(m.roughness)
                &&& f@[3].0@ == "ambient_occlusion"@ && f@[3].1 == number_value(m.ambient_occlusion)
            },
            _ => false,
        },
        None => is_empty_object(v),
    }
}

/// The value an optional reference points to.
pub open spec fn deref_option<T>(o: Option<&T>) -> Option<T> {
    match o {
        Some(x) => Some(*x),
        None => None,
    }
}

/// `v` is one saved entity: id, transform, label, mesh and material, in that order.
pub open spec fn is_entity_value(
    v: JsonValue,
    id: EntityId,
    t: TransformComponent,
    l: Option<LabelComponent>,
    m: Option<MeshComponent>,
    mat: Option<MaterialComponent>,
) -> bool {
    match v {
        JsonValue::Object(f) => {
            &&& f@.len() == 5
            &&& f@[0].0@ == "entity_id"@ && f@[0].1 == id_value(id)
            &&& f@[1].0@ == "transform"@ && is_transform_value(f@[1].1, t)
            &&& f@[2].0@ == "label"@ && is_label_value(f@[2].1, l)
            &&& f@[3].0@ == "mesh"@ && is_mesh_value(f@[3].1, m)
            &&& f@[4].0@ == "material"@ && is_material_value(f@[4].1, mat)
        },
        _ => false,
    }
}

/// `v` is the saved entity `e` of a listing.
pub open spec fn is_saved_entity_value(v: JsonValue, e: SavedEntity) -> bool {
    is_entity_value(v, e.entity_id, *e.transform, deref_option(e.label), deref_option(e.mesh), deref_option(e.material))
}

/// The entries of a saved scene document, where `d` is an object whose one
/// member `entities` is an array.
pub open spec fn saved_entries(d: JsonValue) -> Option<Seq<JsonValue>> {
    match d {
        JsonValue::Object(f) => if f@.len() == 1 && f@[0].0@ == "entities"@ {
            match f@[0].1 {
                JsonValue::Array(a) => Some(a@),
                _ => None,
            }
        } else {
            None
        },
        _ => None,
    }
}

/// `d` is the saved document of the scene `s`, its entities listed in the
/// order `ids`: each entity with a transform once, with its transform, label,
/// mesh and material.
pub open spec fn is_saved_document(d: JsonValue, s: Scene, ids: Seq<EntityId>) -> bool {
    &&& saved_entries(d) is Some
    &&& saved_entries(d)->Some_0.len() == ids.len()
    &&& ids.len() == s.entities().len()
    &&& forall|i: int, j: int| 0 <= i < j < ids.len() ==> #[trigger] ids[i] != #[trigger] ids[j]
    &&& forall|e: EntityId| #[trigger] s.entities().contains(e) <==> ids.contains(e)
    &&& forall|i: int|
        0 <= i < ids.len() ==> is_entity_value(
            #[trigger] saved_entries(d)->Some_0[i],
            ids[i],
            s.transform_of(ids[i])->Some_0,
            s.label_of(ids[i]),
            s.mesh_of(ids[i]),
            s.material_of(ids[i]),
        )
}

fn number_doc(b: u32) -> (r: JsonValue)
    ensures
        r == number_value(b),
{
    if (b >> 23) & 0xff == 0xff {
        JsonValue::Null
    } else {
        JsonValue::Number(JsonNumber { as_u64: None, as_i64: None, double_bits: widen_to_double_bits(b) })
    }
}

fn id_doc(n: u64) -> (r: JsonValue)
    ensures
        r == id_value(n),
{
    let as_i64 = if n <= 0x7FFF_FFFF_FFFF_FFFF {
        Some(n as i64)
    } else {
        None
    };
    JsonValue::Number(JsonNumber { as_u64: Some(n), as_i64, double_bits: u64_to_double_bits(n) })
}

fn triple_doc(t: (u32, u32, u32)) -> (r: JsonValue)
    ensures
        is_triple_value(r, t),
{
    let mut a: Vec<JsonValue> = Vec::new();
    a.push(number_doc(t.0));
    a.push(number_doc(t.1));
    a.push(number_doc(t.2));
    JsonValue::Array(a)
}

fn text_doc(s: &String) -> (r: JsonValue)
    ensures
        is_text_value(r, s@),
{
    JsonValue::Str(s.clone())
}

fn transform_doc(t: &TransformComponent) -> (r: JsonValue)
    ensures
        is_transform_value(r, *t),
{
    let mut f: Vec<(String, JsonValue)> = Vec::new();
    f.push((String::from_str("position"), triple_doc(t.position)));
    f.push((String::from_str("rotation"), triple_doc(t.rotation)));
    f.push((String::from_str("scale"), triple_doc(t.scale)));
    let parent = match t.parent_id {
        Some(p) => id_doc(p),
        None => JsonValue::Null,
    };
    f.push((String::from_str("parent_id"), parent));
    JsonValue::Object(f)
}

fn label_doc(l: Option<&LabelComponent>) -> (r: JsonValue)
    ensures
        is_label_value(r, deref_option(l)),
{
    let mut f: Vec<(String, JsonValue)> = Vec::new();
    if let Some(l) = l {
        f.push((String::from_str("name"), text_doc(&l.name)));
        f.push((String::from_str("entity_type"), text_doc(&l.entity_type)));
    }
    JsonValue::Object(f)
}

fn mesh_doc(m: Option<&MeshComponent>) -> (r: JsonValue)
    ensures
        is_mesh_value(r, deref_option(m)),
{
    let mut f: Vec<(String, JsonValue)> = Vec::new();
    if let Some(m) = m {
        let data = match &m.mesh_data {
            Some(d) => text_doc(d),
            None => JsonValue::Null,
        };
        f.push((String::from_str("mesh_data"), data));
    }
    JsonValue::Object(f)
}

fn material_doc(m: Option<&MaterialComponent>) -> (r: JsonValue)
    ensures
        is_material_value(r, deref_option(m)),
{
    let mut f: Vec<(String, JsonValue)> = Vec::new();
    if let Some(m) = m {
        f.push((String::from_str("albedo"), triple_doc(m.albedo)));
        f.push((String::from_str("metallic"), number_doc(m.metallic)));
        f.push((String::from_str("roughness"), number_doc(m.roughness)));
        f.push((String::from_str("ambient_occlusion"), number_doc(m.ambient_occlusion)));
    }
    JsonValue::Object(f)
}

/// One saved entity as a document, as [`is_saved_entity_value`] says.
pub fn entity_document(e: &SavedEntity) -> (r: JsonValue)
    ensures
        is_saved_entity_value(r, *e),
{
    let mut f: Vec<(String, JsonValue)> = Vec::new();
    f.push((String::from_str("entity_id"), id_doc(e.entity_id)));
    f.push((String::from_str("transform"), transform_doc(e.transform)));
    f.push((String::from_str("label"), label_doc(e.label)));
    f.push((String::from_str("mesh"), mesh_doc(e.mesh)));
    f.push((String::from_str("material"), material_doc(e.material)));
    JsonValue::Object(f)
}

impl Scene {
    /// The scene as a scene-file document, as [`is_saved_document`] says: an
    /// object whose member `entities` lists every entity with a transform.
    pub fn saved_document(&self) -> (r: JsonValue)
        requires
            self.wf(),
        ensures
            exists|ids: Seq<EntityId>| is_saved_document(r, *self, ids),
    {
        let saved = self.saved_entities();
        let ghost ids = saved@.map_values(|e: SavedEntity| e.entity_id);
        let mut a: Vec<JsonValue> = Vec::new();
        let n = saved.len();
        let mut i: usize = 0;
        while i < n
            invariant
                n == saved@.len(),
                i <= n,
                a@.len() == i,
                forall|j: int| 0 <= j < i ==> is_saved_entity_value(#[trigger] a@[j], saved@[j]),
            decreases n - i,
        {
            let d = entity_document(&saved[i]);
            a.push(d);
            i = i + 1;
        }
        let ghost items = a@;
        let mut f: Vec<(String, JsonValue)> = Vec::new();
        f.push((String::from_str("entities"), JsonValue::Array(a)));
        let r = JsonValue::Object(f);
        proof {
            assert(saved_entries(r) == Some(items));
            assert forall|e: EntityId| #[trigger] self.entities().contains(e) <==> ids.contains(e) by {
                if self.entities().contains(e) {
                    let i = choose|i: int| 0 <= i < saved@.len() && saved@[i].entity_id == e;
                    assert(ids[i] == e);
                }
                if ids.contains(e) {
                    let i = choose|i: int| 0 <= i < ids.len() && ids[i] == e;
                    assert(saved@[i].entity_id == e);
                }
            }
            assert forall|i: int| 0 <= i < ids.len() implies is_entity_value(
                #[trigger] saved_entries(r)->Some_0[i],
                ids[i],
                self.transform_of(ids[i])->Some_0,
                self.label_of(ids[i]),
                self.mesh_of(ids[i]),
                self.material_of(ids[i]),
            ) by {
                assert(saved@[i] == saved@[i]);
                assert(is_saved_entity_value(items[i], saved@[i]));
            }
            assert forall|i: int, j: int| 0 <= i < j < ids.len() implies #[trigger] ids[i] != #[trigger] ids[j] by {
                assert(saved@[i].entity_id != saved@[j].entity_id);
            }
            assert(is_saved_document(r, *self, ids));
        }
        r
    }
}

proof fn lemma_lookup_from(fields: Seq<(String, JsonValue)>, key: Seq<char>, i: int, j: int)
    requires
        0 <= i <= j < fields.len(),
        fields[j].0@ == key,
        forall|k: int| i <= k < j ==> #[trigger] fields[k].0@ != key,
    ensures
        lookup(fields, key, i) == Some(fields[j].1),
    decreases j - i,
{
    if i < j {
        lemma_lookup_from(fields, key, i + 1, j);
    }
}

/// The member at position `j` of an object, where no earlier member has its key.
proof fn lemma_member_at(v: JsonValue, key: Seq<char>, j: int)
    requires
        v is Object,
        0 <= j < v->Object_0@.len(),
        v->Object_0@[j].0@ == key,
        forall|k: int| 0 <= k < j ==> #[trigger] v->Object_0@[k].0@ != key,
    ensures
        json_member(v, key) == Some(v->Object_0@[j].1),
        json_get(v, key) == v->Object_0@[j].1,
{
    lemma_lookup_from(v->Object_0@, key, 0, j);
}

/// A finite single-precision number.
pub open spec fn is_finite_bits(b: u32) -> bool {
    (b >> 23u32) & 0xff != 0xff
}

pub open spec fn triple_finite(t: (u32, u32, u32)) -> bool {
    is_finite_bits(t.0) && is_finite_bits(t.1) && is_finite_bits(t.2)
}

/// Every number of the entity's transform and material is finite.
pub open spec fn numbers_finite(t: TransformComponent, m: MaterialComponent) -> bool {
    &&& triple_finite(t.position)
    &&& triple_finite(t.rotation)
    &&& triple_finite(t.scale)
    &&& triple_finite(m.albedo)
    &&& is_finite_bits(m.metallic)
    &&& is_finite_bits(m.roughness)
    &&& is_finite_bits(m.ambient_occlusion)
}

proof fn lemma_number_back(b: u32, default: u32)
    requires
        is_finite_bits(b),
    ensures
        number_bits(number_value(b), default) == b,
{
    lemma_widen_then_narrow(b);
}

proof fn lemma_triple_back(v: JsonValue, t: (u32, u32, u32), default: u32)
    requires
        is_triple_value(v, t),
        triple_finite(t),
    ensures
        triple_ready(v),
        triple_bits(v, default) == t,
{
    lemma_number_back(t.0, default);
    lemma_number_back(t.1, default);
    lemma_number_back(t.2, default);
}

proof fn lemma_keys_distinct()
    ensures
        "entity_id"@ != "transform"@,
        "entity_id"@ != "label"@,
        "entity_id"@ != "material"@,
        "transform"@ != "label"@,
        "transform"@ != "material"@,
        "label"@ != "material"@,
        "mesh"@ != "material"@,
        "position"@ != "rotation"@,
        "position"@ != "scale"@,
        "position"@ != "parent_id"@,
        "rotation"@ != "scale"@,
        "rotation"@ != "parent_id"@,
        "scale"@ != "parent_id"@,
        "name"@ != "entity_type"@,
        "albedo"@ != "metallic"@,
        "albedo"@ != "roughness"@,
        "albedo"@ != "ambient_occlusion"@,
        "metallic"@ != "roughness"@,
        "metallic"@ != "ambient_occlusion"@,
        "roughness"@ != "ambient_occlusion"@,
{
    reveal_strlit("entity_id");
    reveal_strlit("transform");
    reveal_strlit("label");
    reveal_strlit("mesh");
    reveal_strlit("material");
    reveal_strlit("position");
    reveal_strlit("rotation");
    reveal_strlit("scale");
    reveal_strlit("parent_id");
    reveal_strlit("name");
    reveal_strlit("entity_type");
    reveal_strlit("albedo");
    reveal_strlit("metallic");
    reveal_strlit("roughness");
    reveal_strlit("ambient_occlusion");
    assert("entity_id"@[0] != "transform"@[0]);
    assert("entity_id"@[0] != "label"@[0]);
    assert("entity_id"@[0] != "material"@[0]);
    assert("transform"@[0] != "label"@[0]);
    assert("transform"@[0] != "material"@[0]);
    assert("label"@[0] != "material"@[0]);
    assert("mesh"@[1] != "material"@[1]);
    assert("position"@[0] != "rotation"@[0]);
    assert("position"@[0] != "scale"@[0]);
    assert("position"@[1] != "parent_id"@[1]);
    assert("rotation"@[0] != "scale"@[0]);
    assert("rotation"@[0] != "parent_id"@[0]);
    assert("scale"@[0] != "parent_id"@[0]);
    assert("name"@[0] != "entity_type"@[0]);
    assert("albedo"@[0] != "metallic"@[0]);
    assert("albedo"@[0] != "roughness"@[0]);
    assert("albedo"@[1] != "ambient_occlusion"@[1]);
    assert("metallic"@[0] != "roughness"@[0]);
    assert("metallic"@[0] != "ambient_occlusion"@[0]);
    assert("roughness"@[0] != "ambient_occlusion"@[0]);
}

/// What loading reads back from one saved entity that has a label and a
/// material with finite numbers: its id and the three sections as saved.
proof fn lemma_entity_back(
    v: JsonValue,
    id: EntityId,
    t: TransformComponent,
    l: LabelComponent,
    m: Option<MeshComponent>,
    mat: MaterialComponent,
)
    requires
        is_entity_value(v, id, t, Some(l), m, Some(mat)),
        id < u64::MAX,
        numbers_finite(t, mat),
    ensures
        entity_id_of(v) == Some(id),
        entity_ready(v),
        transform_section(v) == Some(t),
        material_section(v) == Some(mat),
        label_section(v) == label_text(Some(l)),
{
    lemma_keys_distinct();
    let f = v->Object_0@;
    lemma_member_at(v, "entity_id"@, 0);
    lemma_member_at(v, "transform"@, 1);
    lemma_member_at(v, "label"@, 2);
    lemma_member_at(v, "material"@, 4);
    let tv = f[1].1;
    let tf = tv->Object_0@;
    lemma_member_at(tv, "position"@, 0);
    lemma_member_at(tv, "rotation"@, 1);
    lemma_member_at(tv, "scale"@, 2);
    lemma_member_at(tv, "parent_id"@, 3);
    lemma_triple_back(tf[0].1, t.position, ZERO_BITS);
    lemma_triple_back(tf[1].1, t.rotation, ZERO_BITS);
    lemma_triple_back(tf[2].1, t.scale, ONE_BITS);
    let lv = f[2].1;
    lemma_member_at(lv, "name"@, 0);
    lemma_member_at(lv, "entity_type"@, 1);
    let mv = f[4].1;
    let mf = mv->Object_0@;
    lemma_member_at(mv, "albedo"@, 0);
    lemma_member_at(mv, "metallic"@, 1);
    lemma_member_at(mv, "roughness"@, 2);
    lemma_member_at(mv, "ambient_occlusion"@, 3);
    lemma_triple_back(mf[0].1, mat.albedo, POINT_EIGHT_BITS);
    lemma_number_back(mat.metallic, ZERO_BITS);
    lemma_number_back(mat.roughness, HALF_BITS);
    lemma_number_back(mat.ambient_occlusion, ONE_BITS);
    assert(transform_section(v) == Some(t));
    assert(material_section(v) == Some(mat));
}

proof fn lemma_last_of_unique(es: Seq<JsonValue>, n: int, e: EntityId, j: int)
    requires
        0 <= j < n <= es.len(),
        entity_id_of(es[j]) == Some(e),
        transform_section(es[j]) is Some,
        material_section(es[j]) is Some,
        label_section(es[j]) is Some,
        forall|k: int| j < k < n ==> entity_id_of(#[trigger] es[k]) != Some(e),
    ensures
        forall|b: Option<TransformComponent>| #[trigger] last_transform(es, n, e, b) == transform_section(es[j]),
        forall|b: Option<MaterialComponent>| #[trigger] last_material(es, n, e, b) == material_section(es[j]),
        forall|b: Option<(Seq<char>, Seq<char>)>| #[trigger] last_label(es, n, e, b) == label_section(es[j]),
    decreases n,
{
    if n > j + 1 {
        lemma_last_of_unique(es, n - 1, e, j);
        assert(entity_id_of(es[n - 1]) != Some(e));
        assert forall|b: Option<TransformComponent>| #[trigger] last_transform(es, n, e, b) == transform_section(es[j]) by {
            assert(last_transform(es, n, e, b) == last_transform(es, n - 1, e, b));
        }
        assert forall|b: Option<MaterialComponent>| #[trigger] last_material(es, n, e, b) == material_section(es[j]) by {
            assert(last_material(es, n, e, b) == last_material(es, n - 1, e, b));
        }
        assert forall|b: Option<(Seq<char>, Seq<char>)>| #[trigger] last_label(es, n, e, b) == label_section(es[j]) by {
            assert(last_label(es, n, e, b) == last_label(es, n - 1, e, b));
        }
    } else {
        assert forall|b: Option<TransformComponent>| #[trigger] last_transform(es, n, e, b) == transform_section(es[j]) by {
            assert(n - 1 == j);
        }
        assert forall|b: Option<MaterialComponent>| #[trigger] last_material(es, n, e, b) == material_section(es[j]) by {
            assert(n - 1 == j);
        }
        assert forall|b: Option<(Seq<char>, Seq<char>)>| #[trigger] last_label(es, n, e, b) == label_section(es[j]) by {
            assert(n - 1 == j);
        }
    }
}

/// Loading the saved document of a scene gives back, for every entity of
/// that scene, the transform, material and label it had, and succeeds,
/// provided every such entity has a label and a material, an id below
/// `u64::MAX`, and finite numbers. (An entity saved without a label or a
/// material is written with an empty object there, which loading cannot
/// read; an infinite or NaN number is written as `null`, which loads as the
/// default.)
pub proof fn law_saved_document_loads_back(
    s: Scene,
    d: JsonValue,
    ids: Seq<EntityId>,
    before: Scene,
    after: Scene,
    r: Result<(), String>,
)
    requires
        s.wf(),
        is_saved_document(d, s, ids),
        forall|e: EntityId| #[trigger] s.entities().contains(e) ==> {
            &&& e < u64::MAX
            &&& s.label_of(e) is Some
            &&& s.material_of(e) is Some
            &&& numbers_finite(s.transform_of(e)->Some_0, s.material_of(e)->Some_0)
        },
    ensures
        scene_ready(d),
        scene_loaded(before, after, d, r) ==> {
            &&& r is Ok
            &&& forall|e: EntityId| #[trigger] s.entities().contains(e) ==> {
                &&& after.transform_of(e) == s.transform_of(e)
                &&& after.material_of(e) == s.material_of(e)
                &&& label_text(after.label_of(e)) == label_text(s.label_of(e))
            }
        },
{
    let es = saved_entries(d)->Some_0;
    lemma_keys_distinct();
    assert(d is Object);
    lemma_member_at(d, "entities"@, 0);
    assert forall|i: int| 0 <= i < ids.len() implies {
        &&& entity_id_of(#[trigger] es[i]) == Some(ids[i])
        &&& entity_ready(es[i])
        &&& transform_section(es[i]) == s.transform_of(ids[i])
        &&& material_section(es[i]) == s.material_of(ids[i])
        &&& label_section(es[i]) == label_text(s.label_of(ids[i]))
    } by {
        let e = ids[i];
        assert(ids.contains(e));
        assert(s.entities().contains(e));
        assert(s.transform_of(e) is Some);
        lemma_entity_back(
            es[i],
            e,
            s.transform_of(e)->Some_0,
            s.label_of(e)->Some_0,
            s.mesh_of(e),
            s.material_of(e)->Some_0,
        );
    }
    assert forall|k: int| 0 <= k <= es.len() implies first_bad_from(es, k) == es.len() by {
        lemma_first_bad_all(es, ids, k);
    }
    assert(first_bad(es) == es.len());
    assert(scene_ready(d));
    if scene_loaded(before, after, d, r) {
        assert forall|e: EntityId| #[trigger] s.entities().contains(e) implies {
            &&& after.transform_of(e) == s.transform_of(e)
            &&& after.material_of(e) == s.material_of(e)
            &&& label_text(after.label_of(e)) == label_text(s.label_of(e))
        } by {
            assert(ids.contains(e));
            let j = choose|j: int| 0 <= j < ids.len() && ids[j] == e;
            assert forall|k: int| j < k < es.len() implies entity_id_of(#[trigger] es[k]) != Some(e) by {
                assert(ids[j] != ids[k]);
            }
            lemma_last_of_unique(es, es.len() as int, e, j);
            assert(after.transform_of(e) == last_transform(es, es.len() as int, e, before.transform_of(e)));
            assert(after.material_of(e) == last_material(es, es.len() as int, e, before.material_of(e)));
            assert(label_text(after.label_of(e)) == last_label(es, es.len() as int, e, label_text(before.label_of(e))));
        }
    }
}

proof fn lemma_first_bad_all(es: Seq<JsonValue>, ids: Seq<EntityId>, k: int)
    requires
        es.len() == ids.len(),
        0 <= k <= es.len(),
        forall|i: int| 0 <= i < ids.len() ==> entity_id_of(#[trigger] es[i]) == Some(ids[i]),
    ensures
        first_bad_from(es, k) == es.len(),
    decreases es.len() - k,
{
    if k < es.len() {
        assert(entity_id_of(es[k]) == Some(ids[k]));
        lemma_first_bad_all(es, ids, k + 1);
    }
}

} // verus!

use muse::json::{JsonNumber, JsonValue};
use muse::scene::{Scene, SceneComponent, LABEL, MATERIAL, MESH, TRANSFORM};
use muse::scene_file::{entity_id_value, entity_is_ready, loaded_entity_of, scene_is_ready};
use muse::scene::MeshType;

fn f(b: u32) -> f32 {
    f32::from_bits(b)
}

fn transform(s: &Scene, id: u64) -> ([f32; 3], [f32; 3], [f32; 3], Option<u64>) {
    match s.world.get(TRANSFORM, id) {
        Some(SceneComponent::Transform(t)) => (
            [f(t.position.0), f(t.position.1), f(t.position.2)],
            [f(t.rotation.0), f(t.rotation.1), f(t.rotation.2)],
            [f(t.scale.0), f(t.scale.1), f(t.scale.2)],
            t.parent_id,
        ),
        _ => panic!("no transform for {id}"),
    }
}

const FULL: &str = r#"{"entities": [
  {"entity_id": 3,
   "transform": {"position": [1, 2.5, -3], "rotation": [0, 0.25, 0], "scale": [2, 2, 2], "parent_id": null},
   "label": {"name": "Box", "entity_type": "cube"},
   "mesh": {"mesh_data": null},
   "material": {"albedo": [0.1, 0.2, 0.3], "metallic": 1, "roughness": 0.25, "ambient_occlusion": 0.5}},
  {"entity_id": 7,
   "transform": {"position": "x", "rotation": null, "scale": {}, "parent_id": 3},
   "label": {"name": 5, "entity_type": "child"},
   "material": {"albedo": null, "metallic": null, "roughness": "r", "ambient_occlusion": []}}
]}"#;

#[test]
fn load_restores_ids_transforms_labels_and_materials() {
    let mut s = Scene::new();
    let r = s.load_scene_text(FULL);
    assert_eq!(r, Some(Ok(())));
    let (p, rot, sc, parent) = transform(&s, 3);
    assert_eq!(p, [1.0, 2.5, -3.0]);
    assert_eq!(rot, [0.0, 0.25, 0.0]);
    assert_eq!(sc, [2.0, 2.0, 2.0]);
    assert_eq!(parent, None);
    match s.world.get(LABEL, 3) {
        Some(SceneComponent::Label(l)) => {
            assert_eq!(l.name, "Box");
            assert_eq!(l.entity_type, "cube");
        }
        _ => panic!("no label"),
    }
    match s.world.get(MATERIAL, 3) {
        Some(SceneComponent::Material(m)) => {
            assert_eq!([f(m.albedo.0), f(m.albedo.1), f(m.albedo.2)], [0.1, 0.2, 0.3]);
            assert_eq!(f(m.metallic), 1.0);
            assert_eq!(f(m.roughness), 0.25);
            assert_eq!(f(m.ambient_occlusion), 0.5);
        }
        _ => panic!("no material"),
    }
    // A scene file restores no meshes.
    assert!(s.world.get(MESH, 3).is_none());
    assert_eq!(s.world.next_entity_id(), 8);
}

#[test]
fn load_applies_defaults() {
    let mut s = Scene::new();
    assert_eq!(s.load_scene_text(FULL), Some(Ok(())));
    let (p, rot, sc, parent) = transform(&s, 7);
    assert_eq!(p, [0.0, 0.0, 0.0]);
    assert_eq!(rot, [0.0, 0.0, 0.0]);
    assert_eq!(sc, [1.0, 1.0, 1.0]);
    assert_eq!(parent, Some(3));
    match s.world.get(LABEL, 7) {
        Some(SceneComponent::Label(l)) => {
            assert_eq!(l.name, "");
            assert_eq!(l.entity_type, "child");
        }
        _ => panic!("no label"),
    }
    match s.world.get(MATERIAL, 7) {
        Some(SceneComponent::Material(m)) => {
            assert_eq!([f(m.albedo.0), f(m.albedo.1), f(m.albedo.2)], [0.8, 0.8, 0.8]);
            assert_eq!(f(m.metallic), 0.0);
            assert_eq!(f(m.roughness), 0.5);
            assert_eq!(f(m.ambient_occlusion), 1.0);
        }
        _ => panic!("no material"),
    }
}

#[test]
fn load_without_entities_array_is_refused_unchanged() {
    let mut s = Scene::new();
    let id = s.spawn_primitive(MeshType::Cube);
    for text in [r#"{"entities": {}}"#, r#"{}"#, r#"[1, 2]"#, r#"{"entities": null}"#] {
        let r = s.load_scene_text(text);
        assert_eq!(r, Some(Err("No entities in scene".to_string())));
        assert_eq!(s.entity_count(), 1);
        assert!(s.world.get(MESH, id).is_some());
    }
}

#[test]
fn load_stops_at_first_invalid_id() {
    let mut s = Scene::new();
    let text = r#"{"entities": [
        {"entity_id": 0, "transform": {"position": [5, 0, 0], "rotation": [0, 0, 0], "scale": [1, 1, 1], "parent_id": null}},
        {"entity_id": -1, "transform": {"position": [6, 0, 0], "rotation": [0, 0, 0], "scale": [1, 1, 1], "parent_id": null}},
        {"entity_id": 2, "transform": {"position": [7, 0, 0], "rotation": [0, 0, 0], "scale": [1, 1, 1], "parent_id": null}}
    ]}"#;
    assert_eq!(s.load_scene_text(text), Some(Err("Invalid entity_id".to_string())));
    assert_eq!(transform(&s, 0).0, [5.0, 0.0, 0.0]);
    assert!(s.world.get(TRANSFORM, 2).is_none());
    assert_eq!(s.entity_count(), 1);
}

#[test]
fn load_refuses_the_largest_id() {
    let mut s = Scene::new();
    let text = r#"{"entities": [{"entity_id": 18446744073709551615}]}"#;
    assert_eq!(s.load_scene_text(text), Some(Err("Invalid entity_id".to_string())));
    assert_eq!(s.world.next_entity_id(), 0);
}

#[test]
fn load_of_text_that_is_not_json_fails_unchanged() {
    let mut s = Scene::new();
    let r = s.load_scene_text("{not json");
    assert!(matches!(r, Some(Err(_))));
    assert_eq!(s.entity_count(), 0);
    assert_eq!(s.world.next_entity_id(), 0);
}

#[test]
fn load_of_entity_missing_a_member_is_not_attempted() {
    let mut s = Scene::new();
    let text = r#"{"entities": [{"entity_id": 1, "transform": {"position": [1, 2, 3]}}]}"#;
    assert_eq!(s.load_scene_text(text), None);
    assert_eq!(s.world.next_entity_id(), 0);
    let short = r#"{"entities": [{"entity_id": 1, "material": {"albedo": [1, 2], "metallic": 0, "roughness": 0, "ambient_occlusion": 0}}]}"#;
    assert_eq!(s.load_scene_text(short), None);
    // An entity past the first invalid id is never read, so it need not be ready.
    let past = r#"{"entities": [{"entity_id": "a"}, {"entity_id": 1, "label": {}}]}"#;
    assert_eq!(s.load_scene_text(past), Some(Err("Invalid entity_id".to_string())));
}

#[test]
fn later_entity_with_same_id_wins() {
    let mut s = Scene::new();
    let text = r#"{"entities": [
        {"entity_id": 4, "label": {"name": "first", "entity_type": "a"}},
        {"entity_id": 4, "label": {"name": "second", "entity_type": "b"}}
    ]}"#;
    assert_eq!(s.load_scene_text(text), Some(Ok(())));
    match s.world.get(LABEL, 4) {
        Some(SceneComponent::Label(l)) => assert_eq!(l.name, "second"),
        _ => panic!("no label"),
    }
    assert_eq!(s.world.next_entity_id(), 5);
}

fn text(s: &str) -> JsonValue {
    JsonValue::Str(s.to_string())
}

fn object(fields: Vec<(&str, JsonValue)>) -> JsonValue {
    JsonValue::Object(fields.into_iter().map(|(k, v)| (k.to_string(), v)).collect())
}

fn uint(n: u64) -> JsonValue {
    JsonValue::Number(JsonNumber {
        as_u64: Some(n),
        as_i64: i64::try_from(n).ok(),
        double_bits: (n as f64).to_bits(),
    })
}

#[test]
fn entity_helpers_read_one_entity() {
    let doc = object(vec![
        ("entity_id", uint(9)),
        ("label", object(vec![("name", text("n")), ("entity_type", text("t"))])),
    ]);
    assert_eq!(entity_id_value(&doc), Some(9));
    assert!(entity_is_ready(&doc));
    let e = loaded_entity_of(&doc).unwrap();
    assert_eq!(e.entity_id, 9);
    assert!(e.transform.is_none());
    assert!(e.material.is_none());
    assert_eq!(e.label.unwrap().name, "n");
    let bad = object(vec![(
        "entity_id",
        JsonValue::Number(JsonNumber { as_u64: None, as_i64: None, double_bits: 1.5f64.to_bits() }),
    )]);
    assert_eq!(entity_id_value(&bad), None);
    assert!(loaded_entity_of(&bad).is_none());
    let scene = object(vec![(
        "entities",
        JsonValue::Array(vec![object(vec![("entity_id", uint(1)), ("label", object(vec![("name", text("x"))]))])]),
    )]);
    assert!(!scene_is_ready(&scene));
    let mut s = Scene::new();
    assert_eq!(s.load_scene_json(&object(vec![("entities", JsonValue::Null)])), Err("No entities in scene".to_string()));
}

#[test]
fn ids_that_are_not_unsigned_integers_are_invalid() {
    for id in ["-2", "1.0", "\"3\"", "null", "1e2"] {
        let mut s = Scene::new();
        let text = format!(r#"{{"entities": [{{"entity_id": {id}}}]}}"#);
        assert_eq!(s.load_scene_text(&text), Some(Err("Invalid entity_id".to_string())), "id {id}");
    }
    let mut s = Scene::new();
    assert_eq!(s.load_scene_text(r#"{"entities": [{"entity_id": 12}]}"#), Some(Ok(())));
    assert_eq!(s.world.next_entity_id(), 13);
}

fn to_serde(v: &JsonValue) -> serde_json::Value {
    match v {
        JsonValue::Null => serde_json::Value::Null,
        JsonValue::Bool(b) => serde_json::Value::Bool(*b),
        JsonValue::Number(n) => match (n.as_u64, n.as_i64) {
            (Some(u), _) => serde_json::Value::from(u),
            (None, Some(i)) => serde_json::Value::from(i),
            (None, None) => serde_json::Number::from_f64(f64::from_bits(n.double_bits))
                .map(serde_json::Value::Number)
                .unwrap_or(serde_json::Value::Null),
        },
        JsonValue::Str(s) => serde_json::Value::String(s.clone()),
        JsonValue::Array(a) => serde_json::Value::Array(a.iter().map(to_serde).collect()),
        JsonValue::Object(f) => serde_json::Value::Object(f.iter().map(|(k, v)| (k.clone(), to_serde(v))).collect()),
    }
}

fn keys(v: &JsonValue) -> Vec<String> {
    match v {
        JsonValue::Object(f) => f.iter().map(|(k, _)| k.clone()).collect(),
        _ => panic!("not an object"),
    }
}

#[test]
fn saved_document_lists_every_entity_with_its_sections() {
    let mut s = Scene::new();
    let a = s.spawn_primitive(MeshType::Cube);
    let b = s.spawn_primitive(MeshType::Sphere(8));
    let doc = s.saved_document();
    assert_eq!(keys(&doc), vec!["entities"]);
    let v = to_serde(&doc);
    let es = v["entities"].as_array().unwrap();
    assert_eq!(es.len(), 2);
    let mut ids: Vec<u64> = es.iter().map(|e| e["entity_id"].as_u64().unwrap()).collect();
    ids.sort();
    assert_eq!(ids, vec![a, b]);
    for e in es {
        for k in 0..3 {
            assert_eq!(e["transform"]["position"][k].as_f64(), Some(0.0));
            assert_eq!(e["transform"]["scale"][k].as_f64(), Some(1.0));
        }
        assert_eq!(e["transform"]["parent_id"], serde_json::Value::Null);
        assert_eq!(e["label"]["name"].as_str(), Some(""));
        assert_eq!(e["mesh"]["mesh_data"], serde_json::Value::Null);
        assert_eq!(e["material"]["albedo"][0].as_f64(), Some(0.8f32 as f64));
        assert_eq!(e["material"]["roughness"].as_f64(), Some(0.5));
    }
    match &doc {
        JsonValue::Object(f) => match &f[0].1 {
            JsonValue::Array(items) => {
                assert_eq!(keys(&items[0]), vec!["entity_id", "transform", "label", "mesh", "material"]);
            }
            _ => panic!(),
        },
        _ => panic!(),
    }
}

#[test]
fn saved_scene_text_loads_back() {
    let mut s = Scene::new();
    let text = r#"{"entities": [
        {"entity_id": 2,
         "transform": {"position": [0.1, -7.25, 3e10], "rotation": [1e-40, 0, 0], "scale": [2, 2, 2], "parent_id": 5},
         "label": {"name": "Node", "entity_type": "group"},
         "material": {"albedo": [0.3, 0.6, 0.9], "metallic": 0.7, "roughness": 0.1, "ambient_occlusion": 0.2}},
        {"entity_id": 5,
         "transform": {"position": [1, 1, 1], "rotation": [0, 0, 0], "scale": [1, 1, 1], "parent_id": null},
         "label": {"name": "Root", "entity_type": "group"},
         "material": {"albedo": [1, 1, 1], "metallic": 0, "roughness": 1, "ambient_occlusion": 1}}
    ]}"#;
    assert_eq!(s.load_scene_text(text), Some(Ok(())));
    let saved = serde_json::to_string_pretty(&to_serde(&s.saved_document())).unwrap();
    let mut t = Scene::new();
    assert_eq!(t.load_scene_text(&saved), Some(Ok(())));
    for id in [2u64, 5] {
        assert_eq!(transform(&s, id), transform(&t, id));
        match (s.world.get(MATERIAL, id), t.world.get(MATERIAL, id)) {
            (Some(SceneComponent::Material(x)), Some(SceneComponent::Material(y))) => assert_eq!(x, y),
            _ => panic!("no material"),
        }
        match (s.world.get(LABEL, id), t.world.get(LABEL, id)) {
            (Some(SceneComponent::Label(x)), Some(SceneComponent::Label(y))) => {
                assert_eq!(x.name, y.name);
                assert_eq!(x.entity_type, y.entity_type);
            }
            _ => panic!("no label"),
        }
    }
    let doc = s.saved_document();
    let mut u = Scene::new();
    assert_eq!(u.load_scene_json(&doc), Ok(()));
    assert_eq!(transform(&u, 2), transform(&s, 2));
}

#[test]
fn entity_without_label_is_saved_with_an_empty_object() {
    let mut s = Scene::new();
    let text = r#"{"entities": [{"entity_id": 0, "transform": {"position": [1, 2, 3], "rotation": [0, 0, 0], "scale": [1, 1, 1], "parent_id": null}}]}"#;
    assert_eq!(s.load_scene_text(text), Some(Ok(())));
    let v = to_serde(&s.saved_document());
    for k in ["label", "material", "mesh"] {
        assert_eq!(v["entities"][0][k].as_object().map(|o| o.len()), Some(0));
    }
    let mut t = Scene::new();
    assert_eq!(t.load_scene_text(&v.to_string()), None);
}

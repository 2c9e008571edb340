use muse::ecs::{Component, EcsWorld, Query};
use muse::scene::{
    LabelComponent, MaterialComponent, MeshComponent, MeshType, SceneComponent, TransformComponent,
    LABEL, MATERIAL, MESH, TRANSFORM,
};

fn transform_at(x: f32) -> TransformComponent {
    TransformComponent {
        position: (x.to_bits(), 0, 0),
        rotation: (0, 0, 0),
        scale: (1.0f32.to_bits(), 1.0f32.to_bits(), 1.0f32.to_bits()),
        parent_id: None,
    }
}

fn transform_x(c: &SceneComponent) -> f32 {
    match c {
        SceneComponent::Transform(t) => f32::from_bits(t.position.0),
        _ => panic!("not a transform"),
    }
}

fn label(name: &str) -> SceneComponent {
    SceneComponent::Label(LabelComponent { name: name.to_string(), entity_type: String::new() })
}

#[test]
fn spawn_hands_out_increasing_ids() {
    let mut w: EcsWorld<SceneComponent> = EcsWorld::new();
    assert_eq!(w.spawn(), 0);
    assert_eq!(w.spawn(), 1);
    assert_eq!(w.spawn(), 2);
}

#[test]
fn spawn_with_id_moves_counter_past_id() {
    let mut w: EcsWorld<SceneComponent> = EcsWorld::new();
    w.spawn_with_id(10);
    assert_eq!(w.spawn(), 11);
    w.spawn_with_id(3);
    assert_eq!(w.spawn(), 12);
}

#[test]
fn component_kinds_follow_variants() {
    assert_eq!(SceneComponent::Transform(transform_at(0.0)).kind(), TRANSFORM);
    assert_eq!(SceneComponent::Mesh(MeshComponent::from_type(MeshType::Cube)).kind(), MESH);
    assert_eq!(SceneComponent::Material(MaterialComponent::primitive_default()).kind(), MATERIAL);
    assert_eq!(label("a").kind(), LABEL);
}

#[test]
fn add_then_get_returns_component() {
    let mut w: EcsWorld<SceneComponent> = EcsWorld::new();
    let e = w.spawn();
    w.add(e, SceneComponent::Transform(transform_at(2.5)));
    assert_eq!(transform_x(w.get(TRANSFORM, e).unwrap()), 2.5);
    assert!(w.get(LABEL, e).is_none());
    assert!(w.get(TRANSFORM, e + 1).is_none());
}

#[test]
fn add_replaces_component_of_same_kind() {
    let mut w: EcsWorld<SceneComponent> = EcsWorld::new();
    let e = w.spawn();
    w.add(e, SceneComponent::Transform(transform_at(1.0)));
    w.add(e, SceneComponent::Transform(transform_at(4.0)));
    assert_eq!(transform_x(w.get(TRANSFORM, e).unwrap()), 4.0);
    assert_eq!(w.query(TRANSFORM).len(), 1);
}

#[test]
fn remove_reports_whether_present() {
    let mut w: EcsWorld<SceneComponent> = EcsWorld::new();
    let e = w.spawn();
    w.add(e, label("x"));
    assert!(w.remove(LABEL, e));
    assert!(!w.remove(LABEL, e));
    assert!(!w.remove(TRANSFORM, e));
    assert!(w.get(LABEL, e).is_none());
}

#[test]
fn add_then_remove_restores_world() {
    let mut w: EcsWorld<SceneComponent> = EcsWorld::new();
    let a = w.spawn();
    let b = w.spawn();
    w.add(a, SceneComponent::Transform(transform_at(1.0)));
    w.add(b, label("b"));
    w.add(b, SceneComponent::Transform(transform_at(3.0)));
    assert!(w.remove(TRANSFORM, b));
    assert_eq!(transform_x(w.get(TRANSFORM, a).unwrap()), 1.0);
    assert!(w.get(TRANSFORM, b).is_none());
    match w.get(LABEL, b) {
        Some(SceneComponent::Label(l)) => assert_eq!(l.name, "b"),
        _ => panic!("label lost"),
    }
}

#[test]
fn query_lists_every_component_of_kind_once() {
    let mut w: EcsWorld<SceneComponent> = EcsWorld::new();
    for i in 0..5u64 {
        let e = w.spawn();
        w.add(e, SceneComponent::Transform(transform_at(i as f32)));
        if i % 2 == 0 {
            w.add(e, label("even"));
        }
    }
    let q = w.query(TRANSFORM);
    assert_eq!(q.len(), 5);
    let mut ids: Vec<u64> = q.iter().map(|(id, _)| *id).collect();
    ids.sort();
    assert_eq!(ids, vec![0, 1, 2, 3, 4]);
    for (id, c) in &q {
        assert_eq!(transform_x(c), *id as f32);
    }
    let labels: Vec<u64> = w.query(LABEL).iter().map(|(id, _)| *id).collect();
    assert_eq!(labels, vec![0, 2, 4]);
    assert!(w.query(99).is_empty());
}

#[test]
fn query_struct_iterates_kind() {
    let mut w: EcsWorld<SceneComponent> = EcsWorld::new();
    let e = w.spawn();
    w.add(e, label("q"));
    let q = Query::new(&w, LABEL);
    let items = q.iter();
    assert_eq!(items.len(), 1);
    assert_eq!(items[0].0, e);
    assert!(Query::new(&w, MESH).iter().is_empty());
}

#[test]
fn get_mut_writes_back() {
    let mut w: EcsWorld<SceneComponent> = EcsWorld::new();
    let e = w.spawn();
    w.add(e, SceneComponent::Transform(transform_at(1.0)));
    if let Some(SceneComponent::Transform(t)) = w.get_mut(TRANSFORM, e) {
        t.position.0 = 7.0f32.to_bits();
    }
    assert_eq!(transform_x(w.get(TRANSFORM, e).unwrap()), 7.0);
    assert!(w.get_mut(LABEL, e).is_none());
}

#[test]
fn query_mut_writes_back_every_component() {
    let mut w: EcsWorld<SceneComponent> = EcsWorld::new();
    for i in 0..3u64 {
        let e = w.spawn();
        w.add(e, SceneComponent::Transform(transform_at(i as f32)));
    }
    for (id, c) in w.query_mut(TRANSFORM) {
        if let SceneComponent::Transform(t) = c {
            t.position.0 = (10.0 + id as f32).to_bits();
        }
    }
    for id in 0..3u64 {
        assert_eq!(transform_x(w.get(TRANSFORM, id).unwrap()), 10.0 + id as f32);
    }
    assert!(w.query_mut(LABEL).is_empty());
}

#[test]
fn despawn_removes_every_kind_of_one_entity() {
    let mut w: EcsWorld<SceneComponent> = EcsWorld::new();
    let a = w.spawn();
    let b = w.spawn();
    for e in [a, b] {
        w.add(e, SceneComponent::Transform(transform_at(e as f32)));
        w.add(e, label("l"));
    }
    w.despawn(a);
    assert!(w.get(TRANSFORM, a).is_none());
    assert!(w.get(LABEL, a).is_none());
    assert!(w.get(TRANSFORM, b).is_some());
    assert!(w.get(LABEL, b).is_some());
    let mut kinds = w.kinds();
    kinds.sort();
    assert_eq!(kinds, vec![TRANSFORM, LABEL]);
}

#[test]
fn spawn_sequence_from_new_counts_up() {
    let mut w: EcsWorld<SceneComponent> = EcsWorld::new();
    for n in 0..100u64 {
        assert_eq!(w.spawn(), n);
    }
    assert_eq!(w.next_entity_id(), 100);
}

#[test]
fn get_follows_the_last_call_that_touched_an_entity() {
    let mut w: EcsWorld<SceneComponent> = EcsWorld::new();
    let a = w.spawn();
    let b = w.spawn();
    w.add(a, SceneComponent::Transform(transform_at(1.0)));
    w.add(b, label("b"));
    w.add(a, SceneComponent::Transform(transform_at(2.0)));
    assert_eq!(transform_x(w.get(TRANSFORM, a).unwrap()), 2.0);
    if let Some(SceneComponent::Transform(t)) = w.get_mut(TRANSFORM, a) {
        t.position.0 = 3.0f32.to_bits();
    }
    assert_eq!(transform_x(w.get(TRANSFORM, a).unwrap()), 3.0);
    w.remove(TRANSFORM, a);
    assert!(w.get(TRANSFORM, a).is_none());
    w.add(a, SceneComponent::Transform(transform_at(4.0)));
    assert_eq!(transform_x(w.get(TRANSFORM, a).unwrap()), 4.0);
    w.despawn(a);
    assert!(w.get(TRANSFORM, a).is_none());
    assert!(matches!(w.get(LABEL, b), Some(SceneComponent::Label(l)) if l.name == "b"));
    assert!(w.get(TRANSFORM, b).is_none());
}

#[test]
fn query_mut_writes_reach_every_entity_and_nothing_else() {
    let mut w: EcsWorld<SceneComponent> = EcsWorld::new();
    for i in 0..4u64 {
        let e = w.spawn();
        w.add(e, SceneComponent::Transform(transform_at(i as f32)));
        w.add(e, label("x"));
    }
    for (id, c) in w.query_mut(TRANSFORM) {
        *c = SceneComponent::Transform(transform_at(100.0 + id as f32));
    }
    for id in 0..4u64 {
        assert_eq!(transform_x(w.get(TRANSFORM, id).unwrap()), 100.0 + id as f32);
        assert!(matches!(w.get(LABEL, id), Some(SceneComponent::Label(l)) if l.name == "x"));
    }
    assert!(w.get(TRANSFORM, 4).is_none());
}

use muse::scene::{
    LabelComponent, LoadedEntity, MaterialComponent, MeshType, Scene, SceneComponent,
    TransformComponent, HALF_BITS, LABEL, MATERIAL, MESH, ONE_BITS, POINT_EIGHT_BITS, TRANSFORM,
    ZERO_BITS,
};

#[test]
fn float_bit_constants_are_the_numbers() {
    assert_eq!(f32::from_bits(ZERO_BITS), 0.0);
    assert_eq!(f32::from_bits(HALF_BITS), 0.5);
    assert_eq!(f32::from_bits(POINT_EIGHT_BITS), 0.8);
    assert_eq!(f32::from_bits(ONE_BITS), 1.0);
}

#[test]
fn spawn_primitive_attaches_four_components() {
    let mut s = Scene::new();
    let id = s.spawn_primitive(MeshType::Sphere(16));
    assert_eq!(id, 0);
    match s.world.get(TRANSFORM, id) {
        Some(SceneComponent::Transform(t)) => {
            assert_eq!(*t, TransformComponent::identity());
            assert_eq!(f32::from_bits(t.scale.1), 1.0);
            assert_eq!(t.parent_id, None);
        }
        _ => panic!("no transform"),
    }
    match s.world.get(MESH, id) {
        Some(SceneComponent::Mesh(m)) => {
            assert_eq!(m.mesh_type, Some(MeshType::Sphere(16)));
            assert!(m.mesh_data.is_none());
        }
        _ => panic!("no mesh"),
    }
    match s.world.get(MATERIAL, id) {
        Some(SceneComponent::Material(m)) => {
            assert_eq!(f32::from_bits(m.albedo.0), 0.8);
            assert_eq!(f32::from_bits(m.metallic), 0.0);
            assert_eq!(f32::from_bits(m.roughness), 0.5);
            assert_eq!(f32::from_bits(m.ambient_occlusion), 1.0);
        }
        _ => panic!("no material"),
    }
    match s.world.get(LABEL, id) {
        Some(SceneComponent::Label(l)) => {
            assert!(l.name.is_empty());
            assert!(l.entity_type.is_empty());
        }
        _ => panic!("no label"),
    }
}

#[test]
fn entity_count_follows_spawns_and_removals() {
    let mut s = Scene::new();
    assert_eq!(s.entity_count(), 0);
    let a = s.spawn_primitive(MeshType::Cube);
    let b = s.spawn_primitive(MeshType::Plane);
    let _c = s.spawn_primitive(MeshType::Cylinder);
    assert_eq!(s.entity_count(), 3);
    s.remove_entity(b);
    assert_eq!(s.entity_count(), 2);
    assert!(s.world.get(MESH, b).is_none());
    assert!(s.world.get(MESH, a).is_some());
    s.remove_entity(b);
    assert_eq!(s.entity_count(), 2);
}

#[test]
fn clear_all_removes_entities_with_transforms_only() {
    let mut s = Scene::new();
    s.spawn_primitive(MeshType::Cube);
    s.spawn_primitive(MeshType::Cube);
    let loose = s.world.spawn();
    s.world.add(loose, SceneComponent::Label(LabelComponent { name: "loose".to_string(), entity_type: String::new() }));
    s.clear_all();
    assert_eq!(s.entity_count(), 0);
    assert!(s.world.get(LABEL, 0).is_none());
    assert!(s.world.get(LABEL, loose).is_some());
    assert_eq!(s.world.spawn(), 3);
}

#[test]
fn saved_entities_lists_each_entity_with_its_components() {
    let mut s = Scene::new();
    let a = s.spawn_primitive(MeshType::Cube);
    let b = s.world.spawn();
    s.world.add(b, SceneComponent::Transform(TransformComponent::identity()));
    let saved = s.saved_entities();
    assert_eq!(saved.len(), 2);
    let sa = saved.iter().find(|e| e.entity_id == a).unwrap();
    assert!(sa.label.is_some() && sa.mesh.is_some() && sa.material.is_some());
    let sb = saved.iter().find(|e| e.entity_id == b).unwrap();
    assert!(sb.label.is_none() && sb.mesh.is_none() && sb.material.is_none());
    assert_eq!(*sb.transform, TransformComponent::identity());
}

#[test]
fn load_entity_restores_what_the_record_carries() {
    let mut s = Scene::new();
    let t = TransformComponent {
        position: (1.5f32.to_bits(), 0, 0),
        rotation: (0, 0, 0),
        scale: (ONE_BITS, ONE_BITS, ONE_BITS),
        parent_id: Some(2),
    };
    s.load_entity(LoadedEntity {
        entity_id: 7,
        transform: Some(t),
        label: Some(LabelComponent { name: "cube".to_string(), entity_type: "prop".to_string() }),
        material: None,
    });
    assert_eq!(s.entity_count(), 1);
    match s.world.get(TRANSFORM, 7) {
        Some(SceneComponent::Transform(got)) => assert_eq!(*got, t),
        _ => panic!("no transform"),
    }
    assert!(s.world.get(MATERIAL, 7).is_none());
    assert!(s.world.get(MESH, 7).is_none());
    assert_eq!(s.spawn_primitive(MeshType::Cube), 8);
}

#[test]
fn render_items_need_a_mesh_type() {
    let mut s = Scene::new();
    let a = s.spawn_primitive(MeshType::Cube);
    let b = s.world.spawn();
    s.world.add(b, SceneComponent::Transform(TransformComponent::identity()));
    let c = s.spawn_primitive(MeshType::Plane);
    s.world.remove(MATERIAL, c);
    let items = s.render_items();
    assert_eq!(items.len(), 2);
    let ia = items.iter().find(|i| i.entity_id == a).unwrap();
    assert_eq!(ia.mesh_type, MeshType::Cube);
    assert_eq!(*ia.material.unwrap(), MaterialComponent::primitive_default());
    let ic = items.iter().find(|i| i.entity_id == c).unwrap();
    assert_eq!(ic.mesh_type, MeshType::Plane);
    assert!(ic.material.is_none());
    assert!(items.iter().all(|i| i.entity_id != b));
}

#[test]
fn entity_ids_are_the_transformed_entities() {
    let mut s = Scene::new();
    s.spawn_primitive(MeshType::Cube);
    s.spawn_primitive(MeshType::Cube);
    let mut ids = s.entity_ids();
    ids.sort();
    assert_eq!(ids, vec![0, 1]);
}

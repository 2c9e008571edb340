use muse::scene::{MeshType, Scene, SceneComponent, MESH};
use muse::toolbar::{Toolbar, ToolbarAction};

fn mesh_type(s: &Scene, id: u64) -> Option<MeshType> {
    match s.world.get(MESH, id) {
        Some(SceneComponent::Mesh(m)) => m.mesh_type,
        _ => None,
    }
}

#[test]
fn add_buttons_spawn_and_select() {
    let t = Toolbar::new();
    assert!(t.open);
    let mut s = Scene::new();
    let mut sel = None;
    let cases = [
        (ToolbarAction::AddCube, MeshType::Cube),
        (ToolbarAction::AddSphere, MeshType::Sphere(16)),
        (ToolbarAction::AddPlane, MeshType::Plane),
        (ToolbarAction::AddCylinder, MeshType::Cylinder),
    ];
    for (i, (a, m)) in cases.into_iter().enumerate() {
        assert!(t.apply(a, &mut s, &mut sel).is_none());
        assert_eq!(sel, Some(i as u64));
        assert_eq!(mesh_type(&s, i as u64), Some(m));
    }
    assert_eq!(s.entity_count(), 4);
}

#[test]
fn delete_removes_selection() {
    let t = Toolbar::new();
    let mut s = Scene::new();
    let mut sel = None;
    t.apply(ToolbarAction::AddCube, &mut s, &mut sel);
    t.apply(ToolbarAction::AddPlane, &mut s, &mut sel);
    assert!(t.apply(ToolbarAction::DeleteSelected, &mut s, &mut sel).is_none());
    assert_eq!(sel, None);
    assert_eq!(s.entity_count(), 1);
    assert_eq!(mesh_type(&s, 0), Some(MeshType::Cube));
    assert!(t.apply(ToolbarAction::DeleteSelected, &mut s, &mut sel).is_none());
    assert_eq!(s.entity_count(), 1);
}

#[test]
fn quick_commands_return_their_text() {
    let t = Toolbar::new();
    let mut s = Scene::new();
    let mut sel = Some(3);
    let cases = [
        (ToolbarAction::ArrangeInGrid, "Arrange all objects in a 3x3 grid"),
        (ToolbarAction::RandomizeColors, "Randomize the colors of all objects"),
        (ToolbarAction::ArrangeInCircle, "Arrange all objects in a circle"),
        (ToolbarAction::ClearScene, "Clear the scene and start fresh"),
    ];
    for (a, text) in cases {
        assert_eq!(t.apply(a, &mut s, &mut sel).as_deref(), Some(text));
        assert_eq!(sel, Some(3));
        assert_eq!(s.entity_count(), 0);
    }
}

use vstd::prelude::*;

use crate::idmap::EntityId;
use crate::scene::{removed_entity, spawned_primitive, MeshType, Scene};

verus! {

/// The buttons of the toolbar that act on the scene or ask for a quick
/// command. Saving and loading a scene go through file dialogs and are not
/// among them.
#[derive(Clone, Copy, Debug, PartialEq, Eq, Structural)]
pub enum ToolbarAction {
    AddCube,
    AddSphere,
    AddPlane,
    AddCylinder,
    DeleteSelected,
    ArrangeInGrid,
    RandomizeColors,
    ArrangeInCircle,
    ClearScene,
}

/// The primitive that an add button spawns; spheres get 16 segments.
pub open spec fn primitive_of(action: ToolbarAction) -> Option<MeshType> {
    match action {
        ToolbarAction::AddCube => Some(MeshType::Cube),
        ToolbarAction::AddSphere => Some(MeshType::Sphere(16)),
        ToolbarAction::AddPlane => Some(MeshType::Plane),
        ToolbarAction::AddCylinder => Some(MeshType::Cylinder),
        _ => None,
    }
}

/// The command text that a quick-command button asks for.
pub open spec fn quick_command_of(action: ToolbarAction) -> Option<Seq<char>> {
    match action {
        ToolbarAction::ArrangeInGrid => Some("Arrange all objects in a 3x3 grid"@),
        ToolbarAction::RandomizeColors => Some("Randomize the colors of all objects"@),
        ToolbarAction::ArrangeInCircle => Some("Arrange all objects in a circle"@),
        ToolbarAction::ClearScene => Some("Clear the scene and start fresh"@),
        _ => None,
    }
}

/// The toolbar window.
pub struct Toolbar {
    pub open: bool,
}

impl Toolbar {
    pub fn new() -> (t: Self)
        ensures
            t.open,
    {
        Toolbar { open: true }
    }

    /// Carries out a button press. An add button spawns its primitive and
    /// selects it; delete removes the selected entity, if any, and clears the
    /// selection; a quick-command button leaves the scene alone and returns
    /// its command text.
    pub fn apply(&self, action: ToolbarAction, scene: &mut Scene, selected: &mut Option<EntityId>) -> (command: Option<String>)
        requires
            old(scene).wf(),
            primitive_of(action) is Some ==> old(scene).world.next_entity() < u64::MAX,
        ensures
            final(scene).wf(),
            match primitive_of(action) {
                Some(mt) => {
                    &&& *final(selected) == Some(old(scene).world.next_entity())
                    &&& spawned_primitive(*old(scene), *final(scene), mt, old(scene).world.next_entity())
                    &&& command is None
                },
                None => if action == ToolbarAction::DeleteSelected {
                    &&& command is None
                    &&& *final(selected) is None
                    &&& match *old(selected) {
                        Some(id) => removed_entity(*old(scene), *final(scene), id),
                        None => *final(scene) == *old(scene),
                    }
                } else {
                    &&& *final(scene) == *old(scene)
                    &&& *final(selected) == *old(selected)
                    &&& command matches Some(c) && quick_command_of(action) == Some(c@)
                },
            },
    {
        match action {
            ToolbarAction::AddCube => {
                let id = scene.spawn_primitive(MeshType::Cube);
                *selected = Some(id);
                None
            },
            ToolbarAction::AddSphere => {
                let id = scene.spawn_primitive(MeshType::Sphere(16));
                *selected = Some(id);
                None
            },
            ToolbarAction::AddPlane => {
                let id = scene.spawn_primitive(MeshType::Plane);
                *selected = Some(id);
                None
            },
            ToolbarAction::AddCylinder => {
                let id = scene.spawn_primitive(MeshType::Cylinder);
                *selected = Some(id);
                None
            },
            ToolbarAction::DeleteSelected => {
                if let Some(id) = *selected {
                    scene.remove_entity(id);
                    *selected = None;
                }
                None
            },
            ToolbarAction::ArrangeInGrid => Some(String::from_str("Arrange all objects in a 3x3 grid")),
            ToolbarAction::RandomizeColors => Some(String::from_str("Randomize the colors of all objects")),
            ToolbarAction::ArrangeInCircle => Some(String::from_str("Arrange all objects in a circle")),
            ToolbarAction::ClearScene => Some(String::from_str("Clear the scene and start fresh")),
        }
    }
}

} // verus!

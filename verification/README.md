# muse

The model side of a character-and-animation studio client: an
entity-component world and the scene built on it, mesh index generation and
draw batching, and the state behind the editor panels (console, generator
prompt, toolbar, equation editor). Everything under `src/` is verified with
Verus; `app/` holds the window, GPU, network and widget code around it.

- `src/idmap.rs` — a small map from entity ids to values (unique ids).
- `src/ecs.rs` — `EcsWorld`: fresh entity ids and one table per component kind.
- `src/scene.rs` — `Scene`: transforms, meshes, materials and labels; spawning,
  removing, clearing, and what is saved, loaded and drawn.
- `src/mesh.rs` — index lists of the primitive meshes, and that they address
  their vertices.
- `src/batch.rs` — `MeshBatch`: meshes gathered into shared buffers with one
  indexed draw each.
- `src/json.rs` — JSON documents as plain values, parsed with `serde_json`.
- `src/precision.rs` — conversions between bit patterns: double to the
  nearest single, single to double, and unsigned integer to double.
- `src/scene_file.rs` — the scene file: the document a scene is saved as,
  and reading a document back into a `Scene` (which sections attach to an
  entity, their defaults, and the errors).
- `src/hierarchy.rs` — the chain of parents whose transforms place an entity,
  and whether the parent links run in a cycle.
- `src/jobs.rs` — the list of generation jobs and how a server update changes it.
- `src/log.rs`, `src/editor.rs`, `src/prompt.rs`, `src/toolbar.rs`,
  `src/templates.rs`, `src/live_editor.rs`, `src/export.rs` — editor state and
  the decisions its widgets make.

Single-precision numbers in scene components are kept as their IEEE-754 bit
patterns; `app/` converts with `f32::to_bits` / `f32::from_bits`. A scene file
is read and written as a `JsonValue` document in `src/`; `app/` only reads
and writes the file and turns the document into `serde_json` text.

The entity tables are `IdMap`s, vectors of unique-id entries, rather than
`HashMap`s: the world hands out mutable references into its tables, and vstd
gives `HashMap` no specification for `get_mut` or mutable iteration.

`app/` uses `wgpu`, `winit`, `egui-wgpu` and `egui-winit` for the window and
the GPU. Those crates are not listed in `Cargo.toml`, so `app/` builds only
once they are added; `src/` and `tests/` do not use them.
